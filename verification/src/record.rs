//! Mappings as records: the entries of a mapping, the lookup of a key, the
//! keys that a level does not declare, and the entries that a record writes.

use vstd::prelude::*;
use crate::error::{ErrorKind, Fault};
use crate::node::{Node, NodeView};
use crate::schema::Schema;
use crate::spelling::Spelled;

verus! {

/// The entries of a mapping whose keys are text: key and value, in the order
/// of the document.
pub type Entries = Seq<(Seq<char>, NodeView)>;

/// What a record may write under one key: the key, and the node, if the value
/// is there.
pub type Slot = (Seq<char>, Option<NodeView>);

/// The key under which a union that is told apart by a discriminant holds it.
pub open spec fn tag_key() -> Seq<char> {
    "type"@
}

/// Whether an entry of `m` has the key `key`.
pub open spec fn has_key(m: Entries, key: Seq<char>) -> bool {
    exists|i: int| 0 <= i < m.len() && (#[trigger] m[i]).0 == key
}

/// The position of an entry of `m` with the key `key`.
pub open spec fn position(m: Entries, key: Seq<char>) -> int {
    choose|i: int| 0 <= i < m.len() && (#[trigger] m[i]).0 == key
}

/// The value under `key`, if `m` has that key.
#[verifier::opaque]
pub open spec fn field(m: Entries, key: Seq<char>) -> Option<NodeView> {
    if has_key(m, key) {
        Some(m[position(m, key)].1)
    } else {
        None
    }
}

/// No key occurs twice.
pub open spec fn distinct_keys(m: Entries) -> bool {
    forall|i: int, j: int| 0 <= i < j < m.len() ==> (#[trigger] m[i]).0 != (#[trigger] m[j]).0
}

/// Every key is text.
pub open spec fn text_keys(raw: Seq<(NodeView, NodeView)>) -> bool {
    forall|i: int| 0 <= i < raw.len() ==> (#[trigger] raw[i]).0 is String
}

/// The entries of a mapping whose keys are text.
pub open spec fn entries_of(raw: Seq<(NodeView, NodeView)>) -> Entries {
    Seq::new(raw.len(), |i: int| (raw[i].0->String_0, raw[i].1))
}

/// Whether a node can be read as a record: it is a mapping, each key is
/// text, and no key occurs twice.
pub open spec fn is_record(n: NodeView) -> bool {
    n matches NodeView::Mapping(raw) && text_keys(raw) && distinct_keys(entries_of(raw))
}

/// The entries of a node that is a record.
pub open spec fn entries(n: NodeView) -> Entries {
    entries_of(n->Mapping_0)
}

/// The mapping with the given entries.
pub open spec fn record_node(m: Entries) -> NodeView {
    NodeView::Mapping(Seq::new(m.len(), |i: int| (NodeView::String(m[i].0), m[i].1)))
}

/// Whether entry `i` of `m` has a key that is none of `names`.
pub open spec fn is_stray(m: Entries, names: Seq<Seq<char>>, i: int) -> bool {
    0 <= i < m.len() && !names.contains(m[i].0)
}

/// Whether entry `i` is the first of `m` with a key that is none of `names`.
pub open spec fn is_first_stray(m: Entries, names: Seq<Seq<char>>, i: int) -> bool {
    is_stray(m, names, i) && forall|j: int| 0 <= j < i ==> !#[trigger] is_stray(m, names, j)
}

/// The position of the first entry of `m` with a key that is none of `names`.
#[verifier::opaque]
pub open spec fn first_stray(m: Entries, names: Seq<Seq<char>>) -> Option<int> {
    if exists|i: int| is_first_stray(m, names, i) {
        Some(choose|i: int| is_first_stray(m, names, i))
    } else {
        None
    }
}

/// Every key of `m` is one of `names`.
pub open spec fn only_known(m: Entries, names: Seq<Seq<char>>) -> bool {
    forall|i: int| 0 <= i < m.len() ==> !#[trigger] is_stray(m, names, i)
}

/// The failure that a level declaring `names` reports for `m`: the first key,
/// in the order of the document, that it does not declare.
pub open spec fn unknown_field(m: Entries, names: Seq<Seq<char>>) -> Option<Fault> {
    match first_stray(m, names) {
        Some(i) => Some(Fault::at_field(ErrorKind::UnknownField, m[i].0)),
        None => None,
    }
}

/// The value of a field that must be there.
#[verifier::opaque]
pub open spec fn required<T: Schema>(m: Entries, name: Seq<char>) -> Result<T::V, Fault> {
    match field(m, name) {
        None => Err(Fault::at_field(ErrorKind::MissingRequiredField, name)),
        Some(n) => match T::decode(n) {
            Ok(v) => Ok(v),
            Err(e) => Err(e.under_field(name)),
        },
    }
}

/// The value of a field that may be left out. A key that is there always has
/// a value: a null under it is a failure, not an absence.
#[verifier::opaque]
pub open spec fn optional<T: Schema>(m: Entries, name: Seq<char>) -> Result<Option<T::V>, Fault> {
    match field(m, name) {
        None => Ok(None),
        Some(n) => match T::decode(n) {
            Ok(v) => Ok(Some(v)),
            Err(e) => Err(e.under_field(name)),
        },
    }
}

/// What a record writes for a field that is always there.
pub open spec fn slot<T: Schema>(name: Seq<char>, v: T::V) -> Slot {
    (name, Some(T::encode(v)))
}

/// What a record writes for a field that may be left out: nothing where the
/// value is absent.
pub open spec fn slot_opt<T: Schema>(name: Seq<char>, v: Option<T::V>) -> Slot {
    (
        name,
        match v {
            Some(x) => Some(T::encode(x)),
            None => None,
        },
    )
}

/// The entries written for a list of slots: one for each slot that holds a
/// node, in the order of the slots.
pub open spec fn present(slots: Seq<Slot>) -> Entries
    decreases slots.len(),
{
    if slots.len() == 0 {
        Seq::empty()
    } else {
        let rest = present(slots.drop_last());
        match slots.last().1 {
            Some(v) => rest.push((slots.last().0, v)),
            None => rest,
        }
    }
}

/// No two slots have the same name.
pub open spec fn distinct_names(slots: Seq<Slot>) -> bool {
    forall|i: int, j: int| 0 <= i < j < slots.len() ==> (#[trigger] slots[i]).0 != (#[trigger] slots[j]).0
}

/// Whether a slot of `slots` has the name `name`.
pub open spec fn names_slot(slots: Seq<Slot>, name: Seq<char>) -> bool {
    exists|i: int| 0 <= i < slots.len() && (#[trigger] slots[i]).0 == name
}

/// The views of the entries of a mapping node.
pub open spec fn pair_views(raw: Seq<(Node, Node)>) -> Seq<(NodeView, NodeView)> {
    Seq::new(raw.len(), |i: int| (raw[i].0@, raw[i].1@))
}

/// A mapping node holds the views of its entries.
pub proof fn lemma_mapping_view(raw: Vec<(Node, Node)>)
    ensures
        Node::Mapping(raw)@ == NodeView::Mapping(pair_views(raw@)),
{
    assert(Node::Mapping(raw)@->Mapping_0 =~= pair_views(raw@));
}

/// A key has a value exactly when it is there.
pub proof fn lemma_has_field(m: Entries, key: Seq<char>)
    ensures
        field(m, key) is Some <==> has_key(m, key),
{
    reveal(field);
}

/// The value under a key is the value of the entry at the position of the
/// key.
pub proof fn lemma_field_position(m: Entries, key: Seq<char>)
    ensures
        field(m, key) matches Some(x) ==> has_key(m, key) && 0 <= position(m, key) < m.len()
            && m[position(m, key)] == (key, x),
{
    reveal(field);
}

/// Taking an entry away leaves no key twice where none was there twice.
pub proof fn lemma_remove_distinct(m: Entries, i: int)
    requires
        distinct_keys(m),
        0 <= i < m.len(),
    ensures
        distinct_keys(m.remove(i)),
{
    let r = m.remove(i);
    assert forall|a: int, b: int| 0 <= a < b < r.len() implies (#[trigger] r[a]).0 != (#[trigger] r[b]).0 by {
        let aa = if a < i { a } else { a + 1 };
        let bb = if b < i { b } else { b + 1 };
        assert(r[a] == m[aa] && r[b] == m[bb]);
    }
}

/// No key is refused exactly when every key is one of the names.
pub proof fn lemma_unknown_field(m: Entries, names: Seq<Seq<char>>)
    ensures
        unknown_field(m, names) is None <==> only_known(m, names),
        unknown_field(m, names) matches Some(e) ==> e.kind == ErrorKind::UnknownField,
{
    lemma_no_stray(m, names);
}

/// In a mapping without repeated keys, the entry at a position is the one
/// that its key finds.
pub proof fn lemma_position(m: Entries, i: int)
    requires
        distinct_keys(m),
        0 <= i < m.len(),
    ensures
        has_key(m, m[i].0),
        position(m, m[i].0) == i,
        field(m, m[i].0) == Some(m[i].1),
{
    reveal(field);
    let k = position(m, m[i].0);
    assert(0 <= k < m.len() && m[k].0 == m[i].0);
    if k < i {
        assert(m[k].0 != m[i].0);
    } else if i < k {
        assert(m[i].0 != m[k].0);
    }
}

/// A mapping that was built from entries without repeated keys is a record
/// with those entries.
pub proof fn lemma_record_node(m: Entries)
    requires
        distinct_keys(m),
    ensures
        is_record(record_node(m)),
        entries(record_node(m)) == m,
{
    let raw = record_node(m)->Mapping_0;
    assert(entries_of(raw) =~= m);
}

/// Every key is one of `names` exactly when no entry is the first stray.
pub proof fn lemma_no_stray(m: Entries, names: Seq<Seq<char>>)
    ensures
        only_known(m, names) <==> first_stray(m, names) is None,
{
    reveal(first_stray);
    if !only_known(m, names) {
        let i = choose|i: int| 0 <= i < m.len() && #[trigger] is_stray(m, names, i);
        lemma_first_stray_exists(m, names, i);
    } else {
        assert forall|i: int| !is_first_stray(m, names, i) by {
            if 0 <= i < m.len() {
                assert(!is_stray(m, names, i));
            }
        }
    }
}

/// Where an entry is stray, some entry is the first stray.
pub proof fn lemma_first_stray_exists(m: Entries, names: Seq<Seq<char>>, i: int)
    requires
        is_stray(m, names, i),
    ensures
        exists|k: int| is_first_stray(m, names, k),
    decreases i,
{
    if forall|j: int| 0 <= j < i ==> !#[trigger] is_stray(m, names, j) {
        assert(is_first_stray(m, names, i));
    } else {
        let j = choose|j: int| 0 <= j < i && #[trigger] is_stray(m, names, j);
        lemma_first_stray_exists(m, names, j);
    }
}

/// At most one entry is the first stray.
pub proof fn lemma_first_stray_unique(m: Entries, names: Seq<Seq<char>>, i: int)
    requires
        is_first_stray(m, names, i),
    ensures
        first_stray(m, names) == Some(i),
{
    reveal(first_stray);
    let k = choose|k: int| is_first_stray(m, names, k);
    if k < i {
        assert(!is_stray(m, names, k));
    } else if i < k {
        assert(!is_stray(m, names, i));
    }
}

/// What is written for slots with distinct names: no key occurs twice, each
/// key is the name of a slot that holds a node, and the name of each slot
/// finds what the slot holds.
pub proof fn lemma_present(slots: Seq<Slot>)
    requires
        distinct_names(slots),
    ensures
        distinct_keys(present(slots)),
        forall|k: Seq<char>| #[trigger] has_key(present(slots), k) ==> names_slot(slots, k),
        forall|i: int| 0 <= i < slots.len() ==> field(present(slots), (#[trigger] slots[i]).0) == slots[i].1,
    decreases slots.len(),
{
    reveal(field);
    if slots.len() > 0 {
        let head = slots.drop_last();
        let last = slots.last();
        let m = present(slots);
        let h = present(head);
        assert forall|i: int, j: int| 0 <= i < j < head.len() implies (#[trigger] head[i]).0 != (#[trigger] head[j]).0 by {
            assert(head[i] == slots[i] && head[j] == slots[j]);
        }
        lemma_present(head);
        assert(!has_key(h, last.0)) by {
            if has_key(h, last.0) {
                let i = choose|i: int| 0 <= i < head.len() && (#[trigger] head[i]).0 == last.0;
                assert(head[i] == slots[i]);
                assert(slots[i].0 != slots[slots.len() - 1].0);
            }
        }
        assert(distinct_keys(m)) by {
            assert forall|i: int, j: int| 0 <= i < j < m.len() implies (#[trigger] m[i]).0 != (#[trigger] m[j]).0 by {
                if j < h.len() {
                    assert(m[i] == h[i] && m[j] == h[j]);
                } else {
                    assert(m[i] == h[i]);
                    assert(has_key(h, h[i].0));
                }
            }
        }
        assert forall|k: Seq<char>| #[trigger] has_key(m, k) implies names_slot(slots, k) by {
            let i = choose|i: int| 0 <= i < m.len() && (#[trigger] m[i]).0 == k;
            if i < h.len() {
                assert(m[i] == h[i]);
                assert(has_key(h, k));
                let s = choose|s: int| 0 <= s < head.len() && (#[trigger] head[s]).0 == k;
                assert(head[s] == slots[s]);
            } else {
                assert(slots[slots.len() - 1].0 == k);
            }
        }
        assert forall|i: int| 0 <= i < slots.len() implies field(m, (#[trigger] slots[i]).0) == slots[i].1 by {
            if i < head.len() {
                assert(head[i] == slots[i]);
                assert(field(h, head[i].0) == head[i].1);
                if head[i].1 is Some {
                    let p = position(h, head[i].0);
                    assert(m[p] == h[p]);
                    lemma_position(m, p);
                } else {
                    if has_key(m, head[i].0) {
                        let p = choose|p: int| 0 <= p < m.len() && (#[trigger] m[p]).0 == head[i].0;
                        if p < h.len() {
                            assert(m[p] == h[p]);
                            assert(has_key(h, head[i].0));
                        } else {
                            assert(slots[i].0 != slots[slots.len() - 1].0);
                        }
                    }
                }
            } else {
                if last.1 is Some {
                    lemma_position(m, m.len() - 1);
                } else {
                    assert(m == h);
                }
            }
        }
    }
}

/// What is written for slots keeps to the names of the slots.
pub proof fn lemma_present_known(slots: Seq<Slot>, names: Seq<Seq<char>>)
    requires
        distinct_names(slots),
        forall|i: int| 0 <= i < slots.len() ==> names.contains((#[trigger] slots[i]).0),
    ensures
        only_known(present(slots), names),
        unknown_field(present(slots), names) is None,
{
    lemma_present(slots);
    let m = present(slots);
    assert forall|i: int| 0 <= i < m.len() implies !#[trigger] is_stray(m, names, i) by {
        assert(has_key(m, m[i].0));
        let s = choose|s: int| 0 <= s < slots.len() && (#[trigger] slots[s]).0 == m[i].0;
        assert(names.contains(slots[s].0));
    }
    lemma_no_stray(m, names);
}

/// Writing two lists of slots one after the other writes both.
pub proof fn lemma_present_concat(a: Seq<Slot>, b: Seq<Slot>)
    ensures
        present(a + b) == present(a) + present(b),
    decreases b.len(),
{
    if b.len() == 0 {
        assert(a + b =~= a);
        assert(present(a) + present(b) =~= present(a));
    } else {
        assert((a + b).drop_last() =~= a + b.drop_last());
        assert((a + b).last() == b.last());
        lemma_present_concat(a, b.drop_last());
        match b.last().1 {
            Some(v) => {
                assert(present(a + b) =~= present(a) + present(b));
            },
            None => {},
        }
    }
}

/// A record that writes its discriminant first: the discriminant is found
/// under its key, and what is left without it is what the fields wrote.
pub proof fn lemma_tagged(tag: Seq<char>, slots: Seq<Slot>)
    requires
        distinct_names(slots),
        !names_slot(slots, tag_key()),
    ensures
        ({
            let m = present(seq![(tag_key(), Some(NodeView::String(tag)))] + slots);
            &&& distinct_keys(m)
            &&& field(m, tag_key()) == Some(NodeView::String(tag))
            &&& m.remove(position(m, tag_key())) == present(slots)
        }),
{
    let first: Seq<Slot> = seq![(tag_key(), Some(NodeView::String(tag)))];
    let all = first + slots;
    let m = present(all);
    lemma_present_concat(first, slots);
    assert(first.drop_last() =~= Seq::<Slot>::empty());
    assert(present(first) =~= seq![(tag_key(), NodeView::String(tag))]) by {
        reveal_with_fuel(present, 2);
    }
    assert forall|i: int, j: int| 0 <= i < j < all.len() implies (#[trigger] all[i]).0 != (#[trigger] all[j]).0 by {
        if i == 0 {
            assert(all[j] == slots[j - 1]);
        } else {
            assert(all[i] == slots[i - 1] && all[j] == slots[j - 1]);
        }
    }
    lemma_present(all);
    assert(m[0] == (tag_key(), NodeView::String(tag)));
    lemma_position(m, 0);
    assert(m.remove(0) =~= present(slots));
}

/// Whether the keys of `m` fit a shape: each key is one of `names`, and each of
/// `needed` is a key.
pub open spec fn fits(m: Entries, names: Seq<Seq<char>>, needed: Seq<Seq<char>>) -> bool {
    only_known(m, names) && forall|i: int| 0 <= i < needed.len() ==> has_key(m, #[trigger] needed[i])
}

/// A field that is always there is read back from what the slots wrote as
/// it was written.
pub proof fn lemma_required<T: Schema>(slots: Seq<Slot>, i: int, name: Seq<char>, v: T::V)
    requires
        distinct_names(slots),
        0 <= i < slots.len(),
        slots[i] == slot::<T>(name, v),
    ensures
        required::<T>(present(slots), name) == Ok::<T::V, Fault>(v),
{
    reveal(required);
    lemma_present(slots);
    T::lemma_round_trip(v);
}

/// A field that may be left out is read back from what the slots wrote as it
/// was written: absent where it was absent.
pub proof fn lemma_optional<T: Schema>(slots: Seq<Slot>, i: int, name: Seq<char>, v: Option<T::V>)
    requires
        distinct_names(slots),
        0 <= i < slots.len(),
        slots[i] == slot_opt::<T>(name, v),
    ensures
        optional::<T>(present(slots), name) == Ok::<Option<T::V>, Fault>(v),
{
    reveal(optional);
    lemma_present(slots);
    if let Some(x) = v {
        T::lemma_round_trip(x);
    }
}

/// The slot of a discriminant.
pub open spec fn tag_slot(tag: Seq<char>) -> Slot {
    (tag_key(), Some(NodeView::String(tag)))
}

/// The mapping written for a discriminant and the slots of its variant.
pub open spec fn tagged_node(tag: Seq<char>, slots: Seq<Slot>) -> NodeView {
    record_node(present(seq![tag_slot(tag)] + slots))
}

/// The discriminant that entries hold: text under the key of the
/// discriminant, in a spelling that selects one.
pub open spec fn tag_of<K: Spelled>(m: Entries) -> Result<K, Fault> {
    match field(m, tag_key()) {
        None => Err(Fault::at_field(ErrorKind::MissingRequiredField, tag_key())),
        Some(NodeView::String(t)) => match K::named(t) {
            Some(k) => Ok(k),
            None => Err(Fault::at_field(ErrorKind::UnrecognizedDiscriminant, tag_key())),
        },
        Some(_) => Err(Fault::at_field(ErrorKind::TypeMismatch, tag_key())),
    }
}

/// The entries beside the discriminant.
pub open spec fn untagged(m: Entries) -> Entries {
    m.remove(position(m, tag_key()))
}

/// The value that a node stands for, read as a union with a discriminant.
///
/// The node must be a record that holds a discriminant; `variant` reads the
/// entries beside the discriminant as the variant that it selects.
pub open spec fn decode_tagged<K: Spelled, V>(
    n: NodeView,
    variant: spec_fn(K, Entries) -> Result<V, Fault>,
) -> Result<V, Fault> {
    if !is_record(n) {
        Err(Fault::here(ErrorKind::TypeMismatch))
    } else {
        match tag_of::<K>(entries(n)) {
            Ok(k) => variant(k, untagged(entries(n))),
            Err(e) => Err(e),
        }
    }
}

/// Slots that are named by a list of distinct names, none of them the key of
/// a discriminant, have distinct names, none of them that key.
pub proof fn lemma_slot_names(slots: Seq<Slot>, names: Seq<Seq<char>>)
    requires
        slots.len() == names.len(),
        forall|i: int| 0 <= i < slots.len() ==> (#[trigger] slots[i]).0 == names[i],
        names.no_duplicates(),
        !names.contains(tag_key()),
    ensures
        distinct_names(slots),
        !names_slot(slots, tag_key()),
        forall|i: int| 0 <= i < slots.len() ==> names.contains((#[trigger] slots[i]).0),
{
    assert forall|i: int| 0 <= i < slots.len() implies names.contains((#[trigger] slots[i]).0) by {
        assert(names[i] == slots[i].0);
    }
    if names_slot(slots, tag_key()) {
        let i = choose|i: int| 0 <= i < slots.len() && (#[trigger] slots[i]).0 == tag_key();
        assert(names[i] == tag_key());
    }
}

/// Reading what was written for a discriminant and the slots of its variant
/// finds the variant and hands it the entries that its slots wrote.
pub proof fn lemma_tagged_round_trip<K: Spelled, V>(
    k: K,
    slots: Seq<Slot>,
    variant: spec_fn(K, Entries) -> Result<V, Fault>,
)
    requires
        distinct_names(slots),
        !names_slot(slots, tag_key()),
    ensures
        decode_tagged(tagged_node(k.name(), slots), variant) == variant(k, present(slots)),
{
    k.lemma_named();
    lemma_tagged(k.name(), slots);
    lemma_record_node(present(seq![tag_slot(k.name())] + slots));
}

/// Two records that differ only in the spelling of the discriminant, where
/// both spellings select the same variant, stand for the same value.
pub proof fn lemma_spelling<K: Spelled, V>(
    m: Entries,
    i: int,
    s1: Seq<char>,
    s2: Seq<char>,
    variant: spec_fn(K, Entries) -> Result<V, Fault>,
)
    requires
        distinct_keys(m),
        0 <= i < m.len(),
        m[i].0 == tag_key(),
        K::named(s1) == K::named(s2),
    ensures
        decode_tagged(record_node(m.update(i, (tag_key(), NodeView::String(s1)))), variant)
            == decode_tagged(record_node(m.update(i, (tag_key(), NodeView::String(s2)))), variant),
{
    let m1 = m.update(i, (tag_key(), NodeView::String(s1)));
    let m2 = m.update(i, (tag_key(), NodeView::String(s2)));
    assert forall|a: int, b: int| 0 <= a < b < m1.len() implies (#[trigger] m1[a]).0 != (#[trigger] m1[b]).0 by {
        assert(m1[a].0 == m[a].0 && m1[b].0 == m[b].0);
    }
    assert forall|a: int, b: int| 0 <= a < b < m2.len() implies (#[trigger] m2[a]).0 != (#[trigger] m2[b]).0 by {
        assert(m2[a].0 == m[a].0 && m2[b].0 == m[b].0);
    }
    lemma_record_node(m1);
    lemma_record_node(m2);
    lemma_position(m1, i);
    lemma_position(m2, i);
    assert(m1.remove(i) =~= m2.remove(i));
}

} // verus!
