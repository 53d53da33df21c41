//! Types that are written as the entries of a mapping.

use vstd::prelude::*;
use crate::error::{ErrorKind, Fault, SchemaError};
use crate::fields::{Fields, Writer};
use crate::node::{Node, NodeView};
use crate::schema::Schema;
use crate::likeness::{alike_entries, lemma_alike_record};
use crate::record::{
    distinct_keys, distinct_names, entries, is_record, lemma_present, lemma_record_node, names_slot, present,
    record_node, tag_key, Entries, Slot,
};

verus! {

/// A type whose values are written as entries of a mapping: a record with
/// its fields, or a union that is told apart by the keys that are there.
///
/// Such a type reads the entries that it is given and accepts no key that it
/// does not declare. It never uses the key of a discriminant for a field of
/// its own, so that a union can hold it beside its discriminant.
pub trait Record: Sized + DeepView {
    /// What the type writes for a value: one slot for each field.
    spec fn slots(v: Self::V) -> Seq<Slot>;

    /// The value that the entries of a mapping stand for, or why they stand
    /// for none.
    spec fn decode_fields(m: Entries) -> Result<Self::V, Fault>;

    /// Reads a value from the entries of a mapping.
    fn read_fields(f: &Fields) -> (r: Result<Self, SchemaError>)
        ensures
            r matches Ok(x) ==> Self::decode_fields(f@) == Ok::<Self::V, Fault>(x.deep_view()),
            r matches Err(e) ==> Self::decode_fields(f@) == Err::<Self::V, Fault>(e.deep_view()),
    ;

    /// Writes the fields of a value after what `w` holds.
    fn write_fields(&self, w: Writer) -> (r: Writer)
        ensures
            r.slots() == w.slots() + Self::slots(self.deep_view()),
    ;

    /// Reading the entries that were written gives the value back; the slots
    /// have distinct names, none of them the key of a discriminant.
    proof fn lemma_fields(v: Self::V)
        ensures
            distinct_names(Self::slots(v)),
            !names_slot(Self::slots(v), tag_key()),
            Self::decode_fields(present(Self::slots(v))) == Ok::<Self::V, Fault>(v),
    ;

    /// What is written for a value is like any entries that the value was
    /// read from: the same keys, and under each a value of the same shape.
    proof fn lemma_fields_faithful(m: Entries)
        requires
            distinct_keys(m),
        ensures
            Self::decode_fields(m) matches Ok(v) ==> alike_entries(m, present(Self::slots(v))),
    ;
}

/// The value that a node stands for, read as a record.
pub open spec fn decode_record<R: Record>(n: NodeView) -> Result<R::V, Fault> {
    if is_record(n) {
        R::decode_fields(entries(n))
    } else {
        Err(Fault::here(ErrorKind::TypeMismatch))
    }
}

/// The mapping written for a value.
pub open spec fn encode_record<R: Record>(v: R::V) -> NodeView {
    record_node(present(R::slots(v)))
}

/// Reads a value from a node that must be a mapping.
pub fn read_record<R: Record>(n: &Node) -> (r: Result<R, SchemaError>)
    ensures
        r matches Ok(x) ==> decode_record::<R>(n@) == Ok::<R::V, Fault>(x.deep_view()),
        r matches Err(e) ==> decode_record::<R>(n@) == Err::<R::V, Fault>(e.deep_view()),
{
    match Fields::of(n) {
        Ok(f) => R::read_fields(&f),
        Err(e) => Err(e),
    }
}

/// Writes a value as a mapping.
pub fn write_record<R: Record>(x: &R) -> (n: Node)
    ensures
        n@ == encode_record::<R>(x.deep_view()),
{
    let w = x.write_fields(Writer::new());
    proof {
        assert(w.slots() =~= R::slots(x.deep_view()));
    }
    w.finish()
}

/// Reading the mapping that was written for a value gives the value back.
pub proof fn lemma_record_round_trip<R: Record>(v: R::V)
    ensures
        decode_record::<R>(encode_record::<R>(v)) == Ok::<R::V, Fault>(v),
{
    R::lemma_fields(v);
    lemma_present(R::slots(v));
    lemma_record_node(present(R::slots(v)));
}

/// A record is written as a mapping of its entries, and read from one.
impl<R: Record> Schema for R {
    open spec fn decode(n: NodeView) -> Result<R::V, Fault> {
        decode_record::<R>(n)
    }

    open spec fn encode(v: R::V) -> NodeView {
        encode_record::<R>(v)
    }

    fn from_node(n: &Node) -> (r: Result<R, SchemaError>) {
        read_record::<R>(n)
    }

    fn to_node(&self) -> (n: Node) {
        write_record::<R>(self)
    }

    proof fn lemma_round_trip(v: R::V) {
        lemma_record_round_trip::<R>(v);
    }

    proof fn lemma_faithful(n: NodeView) {
        if is_record(n) {
            R::lemma_fields_faithful(entries(n));
            if let Ok(v) = R::decode_fields(entries(n)) {
                R::lemma_fields(v);
                lemma_present(R::slots(v));
                lemma_alike_record(n, present(R::slots(v)));
            }
        }
    }
}

} // verus!
