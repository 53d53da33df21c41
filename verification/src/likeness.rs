//! Trees of the same shape: the same keys at every depth.
//!
//! What is read from a document and written again has the shape of the
//! document. So reading passes over no key, at any depth, and writing adds
//! none: a field that the document leaves out is left out again.

use vstd::prelude::*;
use crate::error::Fault;
use crate::node::NodeView;
use crate::record::{
    distinct_keys, distinct_names, entries, field, has_key, is_record, is_stray,
    lemma_field_position, lemma_has_field, lemma_position, lemma_present, lemma_present_concat,
    lemma_remove_distinct, lemma_tagged, names_slot, only_known, optional, position, present,
    record_node, required, slot, slot_opt, tag_key, tag_of, tag_slot, tagged_node, untagged,
    Entries, Slot,
};
use crate::schema::Schema;
use crate::spelling::Spelled;

verus! {

/// Whether an entry of a mapping has this key.
pub open spec fn holds(y: Seq<(NodeView, NodeView)>, key: NodeView) -> bool {
    exists|j: int| 0 <= j < y.len() && (#[trigger] y[j]).0 == key
}

/// The position of an entry of a mapping with this key.
pub open spec fn place(y: Seq<(NodeView, NodeView)>, key: NodeView) -> int {
    choose|j: int| 0 <= j < y.len() && (#[trigger] y[j]).0 == key
}

/// Whether two trees have the same shape: both are mappings with the same
/// keys, in any order, and under each key the one has a value of the shape of
/// the value that the key finds in the other; or both are sequences of the
/// same length with items of the same shape, one by one; or both are scalars
/// of the same kind.
#[verifier::opaque]
pub open spec fn alike(a: NodeView, b: NodeView) -> bool
    decreases a,
{
    match a {
        NodeView::Mapping(x) => {
            &&& b is Mapping
            &&& forall|i: int|
                0 <= i < x.len() ==> holds(b->Mapping_0, (#[trigger] x[i]).0) && alike(
                    x[i].1,
                    b->Mapping_0[place(b->Mapping_0, x[i].0)].1,
                )
            &&& forall|j: int| 0 <= j < b->Mapping_0.len() ==> holds(x, (#[trigger] b->Mapping_0[j]).0)
        },
        NodeView::Sequence(x) => {
            &&& b is Sequence
            &&& x.len() == b->Sequence_0.len()
            &&& forall|i: int| 0 <= i < x.len() ==> alike(#[trigger] x[i], b->Sequence_0[i])
        },
        NodeView::Null => b is Null,
        NodeView::Bool(_) => b is Bool,
        NodeView::Number(_) => b is Number,
        NodeView::String(_) => b is String,
    }
}

/// Whether two lists of entries have the same keys, and under each key the
/// one has a value of the shape of the value that the other has.
#[verifier::opaque]
pub open spec fn alike_entries(a: Entries, b: Entries) -> bool {
    &&& forall|i: int|
        0 <= i < a.len() ==> has_key(b, (#[trigger] a[i]).0) && alike(a[i].1, b[position(b, a[i].0)].1)
    &&& forall|j: int| 0 <= j < b.len() ==> has_key(a, (#[trigger] b[j]).0)
}

/// A record has the shape of the mapping written for entries that are like
/// its own.
pub proof fn lemma_alike_record(n: NodeView, b: Entries)
    requires
        is_record(n),
        distinct_keys(b),
        alike_entries(entries(n), b),
    ensures
        alike(n, record_node(b)),
{
    reveal_with_fuel(alike, 1);
    reveal(alike_entries);
    let x = n->Mapping_0;
    let a = entries(n);
    let y = record_node(b)->Mapping_0;
    assert forall|i: int| 0 <= i < x.len() implies holds(y, (#[trigger] x[i]).0) && alike(
        x[i].1,
        y[place(y, x[i].0)].1,
    ) by {
        assert(a[i].0 == x[i].0->String_0 && a[i].1 == x[i].1);
        let j = position(b, a[i].0);
        assert(y[j].0 == NodeView::String(b[j].0) && y[j].1 == b[j].1);
        let k = place(y, x[i].0);
        assert(y[k].0 == NodeView::String(b[k].0));
        lemma_position(b, k);
    }
    assert forall|j: int| 0 <= j < y.len() implies holds(x, (#[trigger] y[j]).0) by {
        assert(y[j].0 == NodeView::String(b[j].0));
        assert(has_key(a, b[j].0));
        let i = choose|i: int| 0 <= i < a.len() && (#[trigger] a[i]).0 == b[j].0;
        assert(a[i].0 == x[i].0->String_0);
        assert(x[i].0 == y[j].0);
    }
}

/// What a field that must be there was read from has the shape of what is
/// written for the value.
pub proof fn lemma_required_faithful<T: Schema>(m: Entries, name: Seq<char>)
    ensures
        required::<T>(m, name) matches Ok(x) ==> field(m, name) matches Some(a) && alike(
            a,
            T::encode(x),
        ),
{
    reveal(required);
    if let Some(a) = field(m, name) {
        T::lemma_faithful(a);
    }
}

/// What a field that may be left out was read from has the shape of what is
/// written for the value; where the value is absent, the key is.
pub proof fn lemma_optional_faithful<T: Schema>(m: Entries, name: Seq<char>)
    ensures
        optional::<T>(m, name) matches Ok(Some(x)) ==> field(m, name) matches Some(a) && alike(
            a,
            T::encode(x),
        ),
        optional::<T>(m, name) matches Ok(None) ==> field(m, name) is None,
{
    reveal(optional);
    if let Some(a) = field(m, name) {
        T::lemma_faithful(a);
    }
}

/// Whether entries hold under the name of each slot something of the shape
/// of what the slot holds, and nothing where the slot holds nothing.
#[verifier::opaque]
pub open spec fn matched(m: Entries, slots: Seq<Slot>) -> bool {
    forall|t: int|
        0 <= t < slots.len() ==> {
            &&& field(m, (#[trigger] slots[t]).0) is Some <==> slots[t].1 is Some
            &&& slots[t].1 is Some ==> alike(field(m, slots[t].0)->Some_0, slots[t].1->Some_0)
        }
}

/// Any entries match no slots.
pub proof fn lemma_matched_none(m: Entries) -> (slots: Seq<Slot>)
    ensures
        slots == Seq::<Slot>::empty(),
        matched(m, slots),
{
    reveal(matched);
    Seq::empty()
}

/// Entries that match some slots match them and the slot of a field that
/// must be there and was read from them.
pub proof fn lemma_matched_required<T: Schema>(
    m: Entries,
    slots: Seq<Slot>,
    name: Seq<char>,
    x: T::V,
) -> (more: Seq<Slot>)
    requires
        matched(m, slots),
        required::<T>(m, name) == Ok::<T::V, Fault>(x),
    ensures
        more == slots.push(slot::<T>(name, x)),
        matched(m, more),
{
    reveal(matched);
    lemma_required_faithful::<T>(m, name);
    let more = slots.push(slot::<T>(name, x));
    assert forall|t: int| 0 <= t < more.len() implies {
        &&& field(m, (#[trigger] more[t]).0) is Some <==> more[t].1 is Some
        &&& more[t].1 is Some ==> alike(field(m, more[t].0)->Some_0, more[t].1->Some_0)
    } by {
        if t < slots.len() {
            assert(more[t] == slots[t]);
        }
    }
    more
}

/// Entries that match some slots match them and the slot of a field that may
/// be left out and was read from them.
pub proof fn lemma_matched_optional<T: Schema>(
    m: Entries,
    slots: Seq<Slot>,
    name: Seq<char>,
    x: Option<T::V>,
) -> (more: Seq<Slot>)
    requires
        matched(m, slots),
        optional::<T>(m, name) == Ok::<Option<T::V>, Fault>(x),
    ensures
        more == slots.push(slot_opt::<T>(name, x)),
        matched(m, more),
{
    reveal(matched);
    lemma_optional_faithful::<T>(m, name);
    let more = slots.push(slot_opt::<T>(name, x));
    assert forall|t: int| 0 <= t < more.len() implies {
        &&& field(m, (#[trigger] more[t]).0) is Some <==> more[t].1 is Some
        &&& more[t].1 is Some ==> alike(field(m, more[t].0)->Some_0, more[t].1->Some_0)
    } by {
        if t < slots.len() {
            assert(more[t] == slots[t]);
        }
    }
    more
}

/// Entries that keep to the names of some slots and match the slots are like
/// what is written for the slots.
pub proof fn lemma_alike_slots(m: Entries, slots: Seq<Slot>, names: Seq<Seq<char>>)
    requires
        distinct_keys(m),
        only_known(m, names),
        distinct_names(slots),
        slots.len() == names.len(),
        forall|t: int| 0 <= t < slots.len() ==> (#[trigger] slots[t]).0 == names[t],
        matched(m, slots),
    ensures
        alike_entries(m, present(slots)),
{
    reveal(alike_entries);
    reveal(matched);
    let b = present(slots);
    lemma_present(slots);
    assert forall|i: int| 0 <= i < m.len() implies has_key(b, (#[trigger] m[i]).0) && alike(
        m[i].1,
        b[position(b, m[i].0)].1,
    ) by {
        assert(!is_stray(m, names, i));
        let t = choose|t: int| 0 <= t < names.len() && names[t] == m[i].0;
        assert(slots[t].0 == m[i].0);
        lemma_position(m, i);
        assert(field(b, slots[t].0) == slots[t].1);
        lemma_field_position(b, slots[t].0);
    }
    assert forall|j: int| 0 <= j < b.len() implies has_key(m, (#[trigger] b[j]).0) by {
        assert(has_key(b, b[j].0));
        let t = choose|t: int| 0 <= t < slots.len() && (#[trigger] slots[t]).0 == b[j].0;
        lemma_position(b, j);
        assert(field(b, slots[t].0) == slots[t].1);
        lemma_has_field(m, slots[t].0);
    }
}

/// What is written for a discriminant and some slots is the entry of the
/// discriminant and then what the slots write.
pub proof fn lemma_tagged_entries(tag: Seq<char>, slots: Seq<Slot>)
    ensures
        present(seq![tag_slot(tag)] + slots) == seq![(tag_key(), NodeView::String(tag))] + present(
            slots,
        ),
{
    lemma_present_concat(seq![tag_slot(tag)], slots);
    assert(seq![tag_slot(tag)].drop_last() =~= Seq::<Slot>::empty());
    assert(present(seq![tag_slot(tag)]) =~= seq![(tag_key(), NodeView::String(tag))]) by {
        reveal_with_fuel(present, 2);
    }
}

/// Entries with a discriminant, which are without it like what some slots
/// write, are like what is written for a discriminant and those slots.
pub proof fn lemma_alike_tagged(m: Entries, tag: Seq<char>, slots: Seq<Slot>)
    requires
        distinct_keys(m),
        has_key(m, tag_key()),
        distinct_names(slots),
        !names_slot(slots, tag_key()),
        m[position(m, tag_key())].1 is String,
        alike_entries(m.remove(position(m, tag_key())), present(slots)),
    ensures
        distinct_keys(present(seq![tag_slot(tag)] + slots)),
        alike_entries(m, present(seq![tag_slot(tag)] + slots)),
{
    reveal_with_fuel(alike, 1);
    reveal(alike_entries);
    let p = position(m, tag_key());
    let rest = m.remove(p);
    let inner = present(slots);
    let b = present(seq![tag_slot(tag)] + slots);
    lemma_tagged(tag, slots);
    lemma_tagged_entries(tag, slots);
    lemma_present(slots);
    assert forall|i: int| 0 <= i < m.len() implies has_key(b, (#[trigger] m[i]).0) && alike(
        m[i].1,
        b[position(b, m[i].0)].1,
    ) by {
        if i == p {
            assert(b[0].0 == m[i].0);
            lemma_position(b, 0);
        } else {
            let r = if i < p { i } else { i - 1 };
            assert(rest[r] == m[i]);
            let j = position(inner, rest[r].0);
            assert(b[j + 1] == inner[j]);
            lemma_position(b, j + 1);
        }
    }
    assert forall|j: int| 0 <= j < b.len() implies has_key(m, (#[trigger] b[j]).0) by {
        if j == 0 {
            assert(m[p].0 == b[0].0);
        } else {
            assert(b[j] == inner[j - 1]);
            let r = choose|r: int| 0 <= r < rest.len() && (#[trigger] rest[r]).0 == inner[j - 1].0;
            let i = if r < p { r } else { r + 1 };
            assert(rest[r] == m[i]);
        }
    }
}

/// Beside the discriminant of a record no key occurs twice.
pub proof fn lemma_untagged_distinct<K: Spelled>(n: NodeView)
    requires
        is_record(n),
        tag_of::<K>(entries(n)) is Ok,
    ensures
        distinct_keys(untagged(entries(n))),
{
    lemma_field_position(entries(n), tag_key());
    lemma_remove_distinct(entries(n), position(entries(n), tag_key()));
}

/// A record with a discriminant, whose entries beside the discriminant are
/// like what some slots write, has the shape of what is written for the
/// discriminant and those slots.
pub proof fn lemma_tagged_faithful<K: Spelled>(n: NodeView, k: K, slots: Seq<Slot>)
    requires
        is_record(n),
        tag_of::<K>(entries(n)) == Ok::<K, Fault>(k),
        distinct_names(slots),
        !names_slot(slots, tag_key()),
        alike_entries(untagged(entries(n)), present(slots)),
    ensures
        alike(n, tagged_node(k.name(), slots)),
{
    let m = entries(n);
    lemma_field_position(m, tag_key());
    lemma_alike_tagged(m, k.name(), slots);
    lemma_alike_record(n, present(seq![tag_slot(k.name())] + slots));
}

} // verus!
