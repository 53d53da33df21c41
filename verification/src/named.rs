//! Values held by name, in the order in which they were given.

use vstd::prelude::*;
use crate::error::{ErrorKind, Fault, SchemaError};
use crate::fields::{Fields, Writer};
use crate::likeness::{alike, alike_entries, lemma_alike_record, matched};
use crate::node::{Node, NodeView};
use crate::record::{
    distinct_names, entries, field, has_key, is_record, lemma_mapping_view,
    lemma_position, lemma_present, lemma_record_node, pair_views, position, present, record_node,
    Entries, Slot,
};
use crate::schema::Schema;
use crate::sequence::{fails_first, first_failure, lemma_all_decode};
use crate::text::same_text;

verus! {

/// Values held by name. No name occurs twice, and the entries keep the order
/// in which they were inserted or in which the document gave them; two maps
/// are equal where they hold the same entries in the same order.
#[derive(Debug, PartialEq, Eq)]
pub struct NamedMap<T: DeepView> {
    entries: Vec<(String, T)>,
}

/// No name occurs twice.
pub open spec fn distinct_named<V>(v: Seq<(Seq<char>, V)>) -> bool {
    forall|i: int, j: int| 0 <= i < j < v.len() ==> (#[trigger] v[i]).0 != (#[trigger] v[j]).0
}

/// The position of the value with this name.
pub open spec fn named_position<V>(v: Seq<(Seq<char>, V)>, name: Seq<char>) -> Option<int> {
    if exists|i: int| 0 <= i < v.len() && (#[trigger] v[i]).0 == name {
        Some(choose|i: int| 0 <= i < v.len() && (#[trigger] v[i]).0 == name)
    } else {
        None
    }
}

/// Where no name occurs twice, the name of an entry finds that entry.
pub proof fn lemma_named_position<V>(v: Seq<(Seq<char>, V)>, i: int)
    requires
        distinct_named(v),
        0 <= i < v.len(),
    ensures
        named_position(v, v[i].0) == Some(i),
{
    let k = choose|k: int| 0 <= k < v.len() && (#[trigger] v[k]).0 == v[i].0;
    if k < i {
        assert(v[k].0 != v[i].0);
    } else if i < k {
        assert(v[i].0 != v[k].0);
    }
}

/// The values of the entries of a mapping.
pub open spec fn values_of(m: Entries) -> Seq<NodeView> {
    Seq::new(m.len(), |i: int| m[i].1)
}

/// The named values that a node stands for: the node must be a record, each
/// value is read as a `T`, and the first that fails is reported under its
/// name.
pub open spec fn decode_named<T: Schema>(n: NodeView) -> Result<Seq<(Seq<char>, T::V)>, Fault> {
    if !is_record(n) {
        Err(Fault::here(ErrorKind::TypeMismatch))
    } else {
        let m = entries(n);
        match first_failure::<T>(values_of(m)) {
            Some(i) => Err(T::decode(m[i].1)->Err_0.under_field(m[i].0)),
            None => Ok(Seq::new(m.len(), |i: int| (m[i].0, T::decode(m[i].1)->Ok_0))),
        }
    }
}

/// The entries written for named values.
pub open spec fn named_entries<T: Schema>(v: Seq<(Seq<char>, T::V)>) -> Entries {
    Seq::new(v.len(), |i: int| (v[i].0, T::encode(v[i].1)))
}

/// The mapping written for named values.
pub open spec fn encode_named<T: Schema>(v: Seq<(Seq<char>, T::V)>) -> NodeView {
    record_node(named_entries::<T>(v))
}

/// The named values under a key that may be left out.
#[verifier::opaque]
pub open spec fn optional_named<T: Schema>(m: Entries, name: Seq<char>) -> Result<
    Option<Seq<(Seq<char>, T::V)>>,
    Fault,
> {
    match field(m, name) {
        None => Ok(None),
        Some(n) => match decode_named::<T>(n) {
            Ok(v) => Ok(Some(v)),
            Err(e) => Err(e.under_field(name)),
        },
    }
}

/// What a record writes for named values that may be left out.
pub open spec fn slot_named<T: Schema>(name: Seq<char>, v: Option<Seq<(Seq<char>, T::V)>>) -> Slot {
    (
        name,
        match v {
            Some(x) => Some(encode_named::<T>(x)),
            None => None,
        },
    )
}

/// Reading the mapping that was written for named values gives them back.
pub proof fn lemma_named_round_trip<T: Schema>(v: Seq<(Seq<char>, T::V)>)
    requires
        distinct_named(v),
    ensures
        decode_named::<T>(encode_named::<T>(v)) == Ok::<Seq<(Seq<char>, T::V)>, Fault>(v),
{
    let m = named_entries::<T>(v);
    assert forall|i: int, j: int| 0 <= i < j < m.len() implies (#[trigger] m[i]).0 != (#[trigger] m[j]).0 by {
        assert(v[i].0 != v[j].0);
    }
    lemma_record_node(m);
    let items = values_of(m);
    assert forall|k: int| !fails_first::<T>(items, k) by {
        if 0 <= k < items.len() {
            T::lemma_round_trip(v[k].1);
        }
    }
    assert forall|i: int| 0 <= i < v.len() implies T::decode(m[i].1)->Ok_0 == v[i].1 by {
        T::lemma_round_trip(v[i].1);
    }
    assert(Seq::new(m.len(), |i: int| (m[i].0, T::decode(m[i].1)->Ok_0)) =~= v);
}

/// No name occurs twice in what is read.
pub proof fn lemma_named_distinct<T: Schema>(n: NodeView)
    ensures
        decode_named::<T>(n) matches Ok(v) ==> distinct_named(v),
{
    if let Ok(v) = decode_named::<T>(n) {
        let m = entries(n);
        assert forall|i: int, j: int| 0 <= i < j < v.len() implies (#[trigger] v[i]).0 != (#[trigger] v[j]).0 by {
            assert(m[i].0 != m[j].0);
        }
    }
}

/// Named values that may be left out are read back from what the slots
/// wrote as they were written.
pub proof fn lemma_optional_named<T: Schema>(
    slots: Seq<Slot>,
    i: int,
    name: Seq<char>,
    v: Option<Seq<(Seq<char>, T::V)>>,
)
    requires
        distinct_names(slots),
        0 <= i < slots.len(),
        slots[i] == slot_named::<T>(name, v),
        v matches Some(x) ==> distinct_named(x),
    ensures
        optional_named::<T>(present(slots), name) == Ok::<Option<Seq<(Seq<char>, T::V)>>, Fault>(v),
{
    reveal(optional_named);
    lemma_present(slots);
    if let Some(x) = v {
        lemma_named_round_trip::<T>(x);
    }
}

/// No name occurs twice in named values that were read.
pub proof fn lemma_optional_named_distinct<T: Schema>(m: Entries, name: Seq<char>)
    ensures
        optional_named::<T>(m, name) matches Ok(Some(v)) ==> distinct_named(v),
{
    reveal(optional_named);
    if let Some(n) = field(m, name) {
        lemma_named_distinct::<T>(n);
    }
}

/// The mapping written for named values has the shape of any node that they
/// were read from.
pub proof fn lemma_named_faithful<T: Schema>(n: NodeView)
    ensures
        decode_named::<T>(n) matches Ok(v) ==> alike(n, encode_named::<T>(v)),
{
    if let Ok(v) = decode_named::<T>(n) {
        reveal(alike_entries);
        let m = entries(n);
        let b = named_entries::<T>(v);
        lemma_named_distinct::<T>(n);
        assert forall|i: int, j: int| 0 <= i < j < b.len() implies (#[trigger] b[i]).0 != (#[trigger] b[j]).0 by {
            assert(v[i].0 != v[j].0);
        }
        assert forall|i: int| 0 <= i < m.len() implies has_key(b, (#[trigger] m[i]).0) && alike(
            m[i].1,
            b[position(b, m[i].0)].1,
        ) by {
            assert(b[i].0 == m[i].0);
            lemma_position(b, i);
            assert(values_of(m)[i] == m[i].1);
            lemma_all_decode::<T>(values_of(m), i);
            T::lemma_faithful(m[i].1);
        }
        assert forall|j: int| 0 <= j < b.len() implies has_key(m, (#[trigger] b[j]).0) by {
            assert(m[j].0 == b[j].0);
        }
        lemma_alike_record(n, b);
    }
}

/// Entries that match some slots match them and the slot of named values
/// that may be left out and were read from them.
pub proof fn lemma_matched_named<T: Schema>(
    m: Entries,
    slots: Seq<Slot>,
    name: Seq<char>,
    x: Option<Seq<(Seq<char>, T::V)>>,
) -> (more: Seq<Slot>)
    requires
        matched(m, slots),
        optional_named::<T>(m, name) == Ok::<Option<Seq<(Seq<char>, T::V)>>, Fault>(x),
    ensures
        more == slots.push(slot_named::<T>(name, x)),
        matched(m, more),
{
    reveal(matched);
    reveal(optional_named);
    if let Some(a) = field(m, name) {
        lemma_named_faithful::<T>(a);
    }
    let more = slots.push(slot_named::<T>(name, x));
    assert forall|t: int| 0 <= t < more.len() implies {
        &&& field(m, (#[trigger] more[t]).0) is Some <==> more[t].1 is Some
        &&& more[t].1 is Some ==> alike(field(m, more[t].0)->Some_0, more[t].1->Some_0)
    } by {
        if t < slots.len() {
            assert(more[t] == slots[t]);
        }
    }
    more
}

impl<T: DeepView> DeepView for NamedMap<T> {
    type V = Seq<(Seq<char>, T::V)>;

    closed spec fn deep_view(&self) -> Seq<(Seq<char>, T::V)> {
        Seq::new(self.entries@.len(), |i: int| (self.entries@[i].0@, self.entries@[i].1.deep_view()))
    }
}

impl<T: DeepView> NamedMap<T> {
    #[verifier::type_invariant]
    spec fn distinct(self) -> bool {
        distinct_named(self.deep_view())
    }

    /// A map without entries.
    pub fn new() -> (r: NamedMap<T>)
        ensures
            r.deep_view() == Seq::<(Seq<char>, T::V)>::empty(),
    {
        let entries: Vec<(String, T)> = Vec::new();
        proof {
            let v = Seq::new(entries@.len(), |i: int| (entries@[i].0@, entries@[i].1.deep_view()));
            assert(v =~= Seq::<(Seq<char>, T::V)>::empty());
        }
        NamedMap { entries }
    }

    /// The number of entries.
    pub fn len(&self) -> (r: usize)
        ensures
            r == self.deep_view().len(),
    {
        self.entries.len()
    }

    /// Whether the map has no entries.
    pub fn is_empty(&self) -> (r: bool)
        ensures
            r == (self.deep_view().len() == 0),
    {
        self.entries.len() == 0
    }

    /// The name of entry `i`.
    pub fn name(&self, i: usize) -> (r: &String)
        requires
            i < self.deep_view().len(),
        ensures
            r@ == self.deep_view()[i as int].0,
    {
        &self.entries[i].0
    }

    /// The value of entry `i`.
    pub fn value(&self, i: usize) -> (r: &T)
        requires
            i < self.deep_view().len(),
        ensures
            r.deep_view() == self.deep_view()[i as int].1,
    {
        &self.entries[i].1
    }

    /// The position of the entry with this name.
    pub fn position(&self, name: &str) -> (r: Option<usize>)
        ensures
            r matches Some(i) ==> named_position(self.deep_view(), name@) == Some(i as int) && i
                < self.deep_view().len() && self.deep_view()[i as int].0 == name@,
            r is None ==> named_position(self.deep_view(), name@) is None,
    {
        proof {
            use_type_invariant(self);
        }
        let mut i: usize = 0;
        while i < self.entries.len()
            invariant
                i <= self.entries@.len(),
                self.deep_view().len() == self.entries@.len(),
                distinct_named(self.deep_view()),
                forall|j: int| 0 <= j < i ==> (#[trigger] self.deep_view()[j]).0 != name@,
            decreases self.entries@.len() - i,
        {
            if same_text(self.entries[i].0.as_str(), name) {
                proof {
                    assert(self.deep_view()[i as int].0 == name@);
                    lemma_named_position(self.deep_view(), i as int);
                }
                return Some(i);
            }
            i += 1;
        }
        None
    }

    /// Whether an entry has this name.
    pub fn contains_key(&self, name: &str) -> (r: bool)
        ensures
            r == named_position(self.deep_view(), name@) is Some,
    {
        self.position(name).is_some()
    }

    /// The value with this name.
    pub fn get(&self, name: &str) -> (r: Option<&T>)
        ensures
            r matches Some(x) ==> named_position(self.deep_view(), name@) matches Some(i)
                && self.deep_view()[i].1 == x.deep_view(),
            r is None ==> named_position(self.deep_view(), name@) is None,
    {
        match self.position(name) {
            Some(i) => Some(&self.entries[i].1),
            None => None,
        }
    }

    /// The map with `value` under `name`: in the place of the value that had
    /// the name, or after the other entries where the name is new.
    pub fn with(self, name: String, value: T) -> (r: NamedMap<T>)
        ensures
            r.deep_view() == match named_position(self.deep_view(), name@) {
                Some(i) => self.deep_view().update(i, (name@, value.deep_view())),
                None => self.deep_view().push((name@, value.deep_view())),
            },
    {
        proof {
            use_type_invariant(&self);
        }
        let ghost before = self.deep_view();
        let ghost added = (name@, value.deep_view());
        let at = self.position(name.as_str());
        let mut entries = self.entries;
        match at {
            Some(i) => {
                entries.set(i, (name, value));
                proof {
                    let after = Seq::new(entries@.len(), |k: int| (entries@[k].0@, entries@[k].1.deep_view()));
                    assert(after =~= before.update(i as int, added));
                    assert forall|a: int, b: int| 0 <= a < b < after.len() implies (#[trigger] after[a]).0 != (#[trigger] after[b]).0 by {
                        assert(after[a].0 == before[a].0 && after[b].0 == before[b].0);
                    }
                }
            },
            None => {
                entries.push((name, value));
                proof {
                    let after = Seq::new(entries@.len(), |k: int| (entries@[k].0@, entries@[k].1.deep_view()));
                    assert(after =~= before.push(added));
                    assert forall|a: int, b: int| 0 <= a < b < after.len() implies (#[trigger] after[a]).0 != (#[trigger] after[b]).0 by {
                        if b < before.len() {
                            assert(after[a] == before[a] && after[b] == before[b]);
                        } else {
                            assert(after[a] == before[a]);
                        }
                    }
                }
            },
        }
        NamedMap { entries }
    }

    /// Puts `value` under `name`, as [`NamedMap::with`] does.
    pub fn insert(&mut self, name: String, value: T)
        ensures
            final(self).deep_view() == match named_position(old(self).deep_view(), name@) {
                Some(i) => old(self).deep_view().update(i, (name@, value.deep_view())),
                None => old(self).deep_view().push((name@, value.deep_view())),
            },
    {
        let mut taken = NamedMap::new();
        core::mem::swap(self, &mut taken);
        *self = taken.with(name, value);
    }

    /// States that no name occurs twice; does nothing when run.
    pub fn witness_distinct(&self)
        ensures
            distinct_named(self.deep_view()),
    {
        proof {
            use_type_invariant(self);
        }
    }
}

impl<T: DeepView + Clone> Clone for NamedMap<T> {
    /// A map with the same names in the same order, each with a clone of its
    /// value.
    fn clone(&self) -> (r: NamedMap<T>)
        ensures
            r.deep_view().len() == self.deep_view().len(),
            forall|i: int| 0 <= i < r.deep_view().len() ==> (#[trigger] r.deep_view()[i]).0 == self.deep_view()[i].0,
    {
        proof {
            use_type_invariant(self);
        }
        let ghost v = self.deep_view();
        let mut entries: Vec<(String, T)> = Vec::new();
        let mut i: usize = 0;
        while i < self.entries.len()
            invariant
                i <= self.entries@.len(),
                v == self.deep_view(),
                v.len() == self.entries@.len(),
                entries@.len() == i,
                forall|j: int| 0 <= j < i ==> (#[trigger] entries@[j]).0@ == v[j].0,
            decreases self.entries@.len() - i,
        {
            let name = self.entries[i].0.clone();
            let value = self.entries[i].1.clone();
            proof {
                assert(v[i as int].0 == self.entries@[i as int].0@);
            }
            entries.push((name, value));
            i += 1;
        }
        proof {
            let r = Seq::new(entries@.len(), |i: int| (entries@[i].0@, entries@[i].1.deep_view()));
            assert forall|a: int, b: int| 0 <= a < b < r.len() implies (#[trigger] r[a]).0 != (#[trigger] r[b]).0 by {
                assert(entries@[a].0@ == v[a].0 && entries@[b].0@ == v[b].0);
            }
        }
        NamedMap { entries }
    }
}

impl<T: Schema> NamedMap<T> {
    /// Reads named values from a node.
    pub fn from_node(n: &Node) -> (r: Result<NamedMap<T>, SchemaError>)
        ensures
            r matches Ok(x) ==> decode_named::<T>(n@) == Ok::<Seq<(Seq<char>, T::V)>, Fault>(x.deep_view()),
            r matches Err(e) ==> decode_named::<T>(n@) == Err::<Seq<(Seq<char>, T::V)>, Fault>(e.deep_view()),
    {
        let f = Fields::of(n)?;
        let ghost m = f@;
        let ghost items = values_of(m);
        let mut out: Vec<(String, T)> = Vec::new();
        let mut i: usize = 0;
        while i < f.len()
            invariant
                i <= m.len(),
                m == f@,
                items == values_of(m),
                is_record(n@),
                m == entries(n@),
                out@.len() == i,
                forall|j: int| 0 <= j < i ==> (#[trigger] out@[j]).0@ == m[j].0 && T::decode(m[j].1) == Ok::<T::V, Fault>(out@[j].1.deep_view()),
            decreases m.len() - i,
        {
            match T::from_node(f.value(i)) {
                Ok(x) => {
                    out.push((f.key(i).clone(), x));
                },
                Err(e) => {
                    proof {
                        assert(items[i as int] == m[i as int].1);
                        assert forall|j: int| 0 <= j < i implies T::decode(#[trigger] items[j]) is Ok by {
                            assert(out@[j].0@ == m[j].0);
                        }
                        assert(fails_first::<T>(items, i as int));
                        let k = choose|k: int| fails_first::<T>(items, k);
                        assert(k == i) by {
                            if k < i {
                                assert(T::decode(items[k]) is Ok);
                            } else if i < k {
                                assert(T::decode(items[i as int]) is Ok);
                            }
                        }
                    }
                    return Err(e.under_field(f.key(i).as_str()));
                },
            }
            i += 1;
        }
        proof {
            assert forall|k: int| !fails_first::<T>(items, k) by {
                if 0 <= k < items.len() {
                    assert(out@[k].0@ == m[k].0);
                    assert(items[k] == m[k].1);
                }
            }
            let v = Seq::new(out@.len(), |i: int| (out@[i].0@, out@[i].1.deep_view()));
            assert(v =~= Seq::new(m.len(), |i: int| (m[i].0, T::decode(m[i].1)->Ok_0)));
            lemma_named_distinct::<T>(n@);
        }
        Ok(NamedMap { entries: out })
    }

    /// Writes named values as a mapping.
    pub fn to_node(&self) -> (n: Node)
        ensures
            n@ == encode_named::<T>(self.deep_view()),
    {
        let ghost v = self.deep_view();
        let mut raw: Vec<(Node, Node)> = Vec::new();
        let mut i: usize = 0;
        while i < self.entries.len()
            invariant
                i <= self.entries@.len(),
                v == self.deep_view(),
                v.len() == self.entries@.len(),
                raw@.len() == i,
                forall|j: int| 0 <= j < i ==> (#[trigger] raw@[j]).0@ == NodeView::String(v[j].0) && raw@[j].1@ == T::encode(v[j].1),
            decreases self.entries@.len() - i,
        {
            let key = Node::String(self.entries[i].0.clone());
            let value = self.entries[i].1.to_node();
            proof {
                assert(v[i as int] == (self.entries@[i as int].0@, self.entries@[i as int].1.deep_view()));
            }
            raw.push((key, value));
            i += 1;
        }
        proof {
            lemma_mapping_view(raw);
            assert(pair_views(raw@) =~= encode_named::<T>(v)->Mapping_0);
        }
        Node::Mapping(raw)
    }
}

/// Reads the named values under the key `name`, which may be left out.
pub fn read_optional_named<T: Schema>(f: &Fields, name: &str) -> (r: Result<
    Option<NamedMap<T>>,
    SchemaError,
>)
    ensures
        r matches Ok(x) ==> optional_named::<T>(f@, name@) == Ok::<
            Option<Seq<(Seq<char>, T::V)>>,
            Fault,
        >(x.deep_view()),
        r matches Err(e) ==> optional_named::<T>(f@, name@) == Err::<
            Option<Seq<(Seq<char>, T::V)>>,
            Fault,
        >(e.deep_view()),
{
    proof {
        reveal(optional_named);
    }
    match f.get(name) {
        None => Ok(None),
        Some(n) => match NamedMap::<T>::from_node(n) {
            Ok(x) => Ok(Some(x)),
            Err(e) => Err(e.under_field(name)),
        },
    }
}

/// Writes named values that may be left out: nothing where they are absent.
pub fn write_optional_named<T: Schema>(w: Writer, name: &str, value: &Option<NamedMap<T>>) -> (r:
    Writer)
    ensures
        r.slots() == w.slots().push(slot_named::<T>(name@, value.deep_view())),
{
    match value {
        Some(x) => w.put_node(name, x.to_node()),
        None => w.put_nothing(name),
    }
}

} // verus!
