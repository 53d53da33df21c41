//! Reading the entries of a mapping, and writing the entries of a record.

use vstd::prelude::*;
use crate::error::{ErrorKind, Fault, SchemaError};
use crate::node::{Node, NodeView};
use crate::record::{
    distinct_keys, entries, entries_of, field, first_stray, fits, has_key, is_first_stray, is_record,
    is_stray, lemma_first_stray_unique, lemma_mapping_view, lemma_no_stray, lemma_position,
    only_known, optional, pair_views, position, present, record_node, required, slot, slot_opt,
    tag_of, tag_slot, unknown_field, untagged, Entries, Slot,
};
use crate::spelling::Spelled;
use crate::schema::Schema;
use crate::text::same_text;

verus! {

/// The text of each of a list of names.
pub open spec fn texts(names: Seq<&str>) -> Seq<Seq<char>> {
    Seq::new(names.len(), |i: int| names[i]@)
}

/// The entries of a mapping that can be read as a record: every key is text
/// and no key occurs twice.
pub struct Fields<'a> {
    items: Vec<(&'a String, &'a Node)>,
}

impl<'a> View for Fields<'a> {
    type V = Entries;

    closed spec fn view(&self) -> Entries {
        Seq::new(self.items@.len(), |i: int| (self.items@[i].0@, self.items@[i].1@))
    }
}

impl<'a> Fields<'a> {
    #[verifier::type_invariant]
    spec fn distinct(self) -> bool {
        distinct_keys(self@)
    }

    /// The entries of a node, where it can be read as a record.
    pub fn of(n: &'a Node) -> (r: Result<Fields<'a>, SchemaError>)
        ensures
            r matches Ok(f) ==> is_record(n@) && f@ == entries(n@),
            r matches Err(e) ==> !is_record(n@) && e.deep_view() == Fault::here(ErrorKind::TypeMismatch),
    {
        match n {
            Node::Mapping(raw) => {
                proof {
                    lemma_mapping_view(*raw);
                }
                let ghost views = pair_views(raw@);
                let mut items: Vec<(&'a String, &'a Node)> = Vec::new();
                let mut i: usize = 0;
                while i < raw.len()
                    invariant
                        i <= raw@.len(),
                        views == pair_views(raw@),
                        n@ == NodeView::Mapping(views),
                        items@.len() == i,
                        forall|j: int| 0 <= j < i ==> (#[trigger] views[j]).0 is String,
                        forall|j: int| 0 <= j < i ==> (#[trigger] items@[j]).0@ == views[j].0->String_0 && items@[j].1@ == views[j].1,
                        forall|j: int, k: int| 0 <= j < k < i ==> (#[trigger] items@[j]).0@ != (#[trigger] items@[k]).0@,
                    decreases raw@.len() - i,
                {
                    match &raw[i].0 {
                        Node::String(key) => {
                            let mut j: usize = 0;
                            while j < i
                                invariant
                                    j <= i,
                                    i < raw@.len(),
                                    items@.len() == i,
                                    views == pair_views(raw@),
                                    n@ == NodeView::Mapping(views),
                                    views[i as int].0 == NodeView::String(key@),
                                    forall|k: int| 0 <= k < i ==> (#[trigger] items@[k]).0@ == views[k].0->String_0,
                                    forall|k: int| 0 <= k < j ==> (#[trigger] items@[k]).0@ != key@,
                                decreases i - j,
                            {
                                if same_text(items[j].0.as_str(), key.as_str()) {
                                    proof {
                                        let m = entries_of(views);
                                        assert(items@[j as int].0@ == key@);
                                        assert(m[j as int].0 == m[i as int].0);
                                    }
                                    return Err(SchemaError::here(ErrorKind::TypeMismatch));
                                }
                                j += 1;
                            }
                            items.push((key, &raw[i].1));
                        },
                        _ => {
                            proof {
                                assert(!(views[i as int].0 is String));
                            }
                            return Err(SchemaError::here(ErrorKind::TypeMismatch));
                        },
                    }
                    i += 1;
                }
                proof {
                    let m = Seq::new(items@.len(), |i: int| (items@[i].0@, items@[i].1@));
                    assert(m =~= entries_of(views));
                    assert forall|j: int, k: int| 0 <= j < k < m.len() implies (#[trigger] m[j]).0 != (#[trigger] m[k]).0 by {
                        assert(items@[j].0@ != items@[k].0@);
                    }
                }
                Ok(Fields { items })
            },
            _ => Err(SchemaError::here(ErrorKind::TypeMismatch)),
        }
    }

    /// The number of entries.
    pub fn len(&self) -> (r: usize)
        ensures
            r == self@.len(),
    {
        self.items.len()
    }

    /// The key of entry `i`.
    pub fn key(&self, i: usize) -> (r: &'a String)
        requires
            i < self@.len(),
        ensures
            r@ == self@[i as int].0,
    {
        self.items[i].0
    }

    /// The value of entry `i`.
    pub fn value(&self, i: usize) -> (r: &'a Node)
        requires
            i < self@.len(),
        ensures
            r@ == self@[i as int].1,
    {
        self.items[i].1
    }

    /// The position of the entry with the key `name`.
    pub fn find(&self, name: &str) -> (r: Option<usize>)
        ensures
            r matches Some(i) ==> has_key(self@, name@) && i == position(self@, name@),
            r is None ==> !has_key(self@, name@),
    {
        proof {
            use_type_invariant(self);
        }
        let mut i: usize = 0;
        while i < self.items.len()
            invariant
                i <= self@.len(),
                self@.len() == self.items@.len(),
                distinct_keys(self@),
                forall|j: int| 0 <= j < i ==> (#[trigger] self@[j]).0 != name@,
            decreases self@.len() - i,
        {
            if same_text(self.items[i].0.as_str(), name) {
                proof {
                    assert(self@[i as int].0 == name@);
                    lemma_position(self@, i as int);
                }
                return Some(i);
            }
            i += 1;
        }
        None
    }

    /// The value under the key `name`.
    pub fn get(&self, name: &str) -> (r: Option<&'a Node>)
        ensures
            r matches Some(v) ==> field(self@, name@) == Some(v@),
            r is None ==> field(self@, name@) is None,
    {
        proof {
            reveal(field);
        }
        match self.find(name) {
            Some(i) => Some(self.items[i].1),
            None => None,
        }
    }

    /// Whether an entry has the key `name`.
    pub fn has(&self, name: &str) -> (r: bool)
        ensures
            r == has_key(self@, name@),
    {
        self.find(name).is_some()
    }

    /// Reads the field `name`, which must be there.
    pub fn required<T: Schema>(&self, name: &str) -> (r: Result<T, SchemaError>)
        ensures
            r matches Ok(x) ==> required::<T>(self@, name@) == Ok::<T::V, Fault>(x.deep_view()),
            r matches Err(e) ==> required::<T>(self@, name@) == Err::<T::V, Fault>(e.deep_view()),
    {
        proof {
            reveal(required);
        }
        match self.get(name) {
            None => Err(SchemaError::at_field(ErrorKind::MissingRequiredField, name)),
            Some(n) => match T::from_node(n) {
                Ok(x) => Ok(x),
                Err(e) => Err(e.under_field(name)),
            },
        }
    }

    /// Reads the field `name`, which may be left out.
    pub fn optional<T: Schema>(&self, name: &str) -> (r: Result<Option<T>, SchemaError>)
        ensures
            r matches Ok(x) ==> optional::<T>(self@, name@) == Ok::<Option<T::V>, Fault>(x.deep_view()),
            r matches Err(e) ==> optional::<T>(self@, name@) == Err::<Option<T::V>, Fault>(e.deep_view()),
    {
        proof {
            reveal(optional);
        }
        match self.get(name) {
            None => Ok(None),
            Some(n) => match T::from_node(n) {
                Ok(x) => Ok(Some(x)),
                Err(e) => Err(e.under_field(name)),
            },
        }
    }

    /// The position of the first entry whose key is none of `names`.
    pub fn stray(&self, names: &Vec<&str>) -> (r: Option<usize>)
        ensures
            r matches Some(i) ==> first_stray(self@, texts(names@)) == Some(i as int) && i < self@.len(),
            r is None ==> first_stray(self@, texts(names@)) is None,
    {
        let ghost known = texts(names@);
        let mut i: usize = 0;
        while i < self.items.len()
            invariant
                i <= self@.len(),
                self@.len() == self.items@.len(),
                known == texts(names@),
                forall|j: int| 0 <= j < i ==> !#[trigger] is_stray(self@, known, j),
            decreases self@.len() - i,
        {
            let key = self.items[i].0;
            let mut found = false;
            let mut k: usize = 0;
            while k < names.len() && !found
                invariant
                    k <= names@.len(),
                    known == texts(names@),
                    found ==> known.contains(key@),
                    !found ==> forall|j: int| 0 <= j < k ==> (#[trigger] known[j]) != key@,
                decreases names@.len() - k + if found { 0int } else { 1int },
            {
                if same_text(key.as_str(), names[k]) {
                    proof {
                        assert(known[k as int] == key@);
                    }
                    found = true;
                } else {
                    k += 1;
                }
            }
            proof {
                assert(self@[i as int].0 == key@);
            }
            if !found {
                proof {
                    assert(is_first_stray(self@, known, i as int));
                    lemma_first_stray_unique(self@, known, i as int);
                }
                return Some(i);
            }
            i += 1;
        }
        proof {
            assert(only_known(self@, known));
            lemma_no_stray(self@, known);
        }
        None
    }

    /// Fails on the first key that is none of `names`.
    pub fn deny_unknown(&self, names: &Vec<&str>) -> (r: Result<(), SchemaError>)
        ensures
            r is Ok ==> unknown_field(self@, texts(names@)) is None,
            r matches Err(e) ==> unknown_field(self@, texts(names@)) == Some(e.deep_view()),
    {
        match self.stray(names) {
            Some(i) => Err(SchemaError::at_field(ErrorKind::UnknownField, self.items[i].0.as_str())),
            None => Ok(()),
        }
    }

    /// Whether every key is one of `names`.
    pub fn only(&self, names: &Vec<&str>) -> (r: bool)
        ensures
            r == only_known(self@, texts(names@)),
    {
        proof {
            lemma_no_stray(self@, texts(names@));
        }
        self.stray(names).is_none()
    }

    /// Whether the keys fit a shape: each is one of `names`, and each of
    /// `needed` is among them.
    pub fn fits(&self, names: &Vec<&str>, needed: &Vec<&str>) -> (r: bool)
        ensures
            r == fits(self@, texts(names@), texts(needed@)),
    {
        if !self.only(names) {
            return false;
        }
        let ghost wanted = texts(needed@);
        let mut i: usize = 0;
        while i < needed.len()
            invariant
                i <= needed@.len(),
                wanted == texts(needed@),
                forall|j: int| 0 <= j < i ==> has_key(self@, #[trigger] wanted[j]),
            decreases needed@.len() - i,
        {
            if !self.has(needed[i]) {
                proof {
                    assert(wanted[i as int] == needed@[i as int]@);
                }
                return false;
            }
            proof {
                assert(wanted[i as int] == needed@[i as int]@);
            }
            i += 1;
        }
        true
    }

    /// The discriminant that the entries hold, and the entries beside it.
    pub fn tagged<K: Spelled>(&self) -> (r: Result<(K, Fields<'a>), SchemaError>)
        ensures
            r matches Ok((k, rest)) ==> tag_of::<K>(self@) == Ok::<K, Fault>(k) && rest@ == untagged(
                self@,
            ),
            r matches Err(e) ==> tag_of::<K>(self@) == Err::<K, Fault>(e.deep_view()),
    {
        match self.without("type") {
            None => Err(SchemaError::at_field(ErrorKind::MissingRequiredField, "type")),
            Some((tag, rest)) => match tag {
                Node::String(t) => match K::from_name(t.as_str()) {
                    Some(k) => Ok((k, rest)),
                    None => Err(SchemaError::at_field(ErrorKind::UnrecognizedDiscriminant, "type")),
                },
                _ => Err(SchemaError::at_field(ErrorKind::TypeMismatch, "type")),
            },
        }
    }

    /// The value under the key `name`, and the entries without that one.
    pub fn without(&self, name: &str) -> (r: Option<(&'a Node, Fields<'a>)>)
        ensures
            r matches Some((v, rest)) ==> field(self@, name@) == Some(v@) && rest@ == self@.remove(
                position(self@, name@),
            ) && distinct_keys(rest@),
            r is None ==> field(self@, name@) is None,
    {
        proof {
            use_type_invariant(self);
            reveal(field);
        }
        match self.find(name) {
            None => None,
            Some(at) => {
                let mut items: Vec<(&'a String, &'a Node)> = Vec::new();
                let mut i: usize = 0;
                while i < self.items.len()
                    invariant
                        i <= self.items@.len(),
                        at < self.items@.len(),
                        items@.len() == if i <= at { i as int } else { i - 1 },
                        forall|j: int| 0 <= j < items@.len() ==> #[trigger] items@[j] == self.items@[if j < at { j } else { j + 1 }],
                    decreases self.items@.len() - i,
                {
                    if i != at {
                        items.push(self.items[i]);
                    }
                    i += 1;
                }
                proof {
                    let m = self@;
                    let r = Seq::new(items@.len(), |i: int| (items@[i].0@, items@[i].1@));
                    assert(r =~= m.remove(at as int));
                    assert forall|j: int, k: int| 0 <= j < k < r.len() implies (#[trigger] r[j]).0 != (#[trigger] r[k]).0 by {
                        let jj = if j < at { j } else { j + 1 };
                        let kk = if k < at { k } else { k + 1 };
                        assert(r[j] == m[jj] && r[k] == m[kk]);
                    }
                }
                Some((self.items[at].1, Fields { items }))
            },
        }
    }
}

/// The entries of a record as it is written, field by field.
pub struct Writer {
    items: Vec<(Node, Node)>,
    slots: Ghost<Seq<Slot>>,
}

impl Writer {
    #[verifier::type_invariant]
    spec fn holds(self) -> bool {
        NodeView::Mapping(pair_views(self.items@)) == record_node(present(self.slots@))
    }

    /// What was asked of the writer so far: one slot for each field.
    pub closed spec fn slots(self) -> Seq<Slot> {
        self.slots@
    }

    /// A writer with a discriminant written.
    pub fn tagged<K: Spelled>(k: &K) -> (w: Writer)
        ensures
            w.slots() == seq![tag_slot(k.name())],
    {
        let w = Writer::new().put_node("type", Node::String(String::from_str(k.as_str())));
        proof {
            assert(w.slots() =~= seq![tag_slot(k.name())]);
        }
        w
    }

    /// A writer with nothing written.
    pub fn new() -> (w: Writer)
        ensures
            w.slots() == Seq::<Slot>::empty(),
    {
        let items: Vec<(Node, Node)> = Vec::new();
        proof {
            assert(pair_views(items@) =~= record_node(present(Seq::<Slot>::empty()))->Mapping_0);
        }
        Writer { items, slots: Ghost(Seq::empty()) }
    }

    /// Writes `value` under the key `name`.
    pub fn put_node(self, name: &str, value: Node) -> (w: Writer)
        ensures
            w.slots() == self.slots().push((name@, Some(value@))),
    {
        proof {
            use_type_invariant(&self);
        }
        let ghost before = self.slots@;
        let ghost after = before.push((name@, Some(value@)));
        let ghost raw = pair_views(self.items@);
        let ghost added = value@;
        let mut items = self.items;
        items.push((Node::String(String::from_str(name)), value));
        proof {
            assert(after.drop_last() =~= before);
            assert(pair_views(items@) =~= raw.push((NodeView::String(name@), added)));
            assert(pair_views(items@) =~= record_node(present(after))->Mapping_0);
        }
        Writer { items, slots: Ghost(after) }
    }

    /// Writes nothing for the key `name`: the field is absent.
    pub fn put_nothing(self, name: &str) -> (w: Writer)
        ensures
            w.slots() == self.slots().push((name@, None)),
    {
        proof {
            use_type_invariant(&self);
        }
        let ghost before = self.slots@;
        let ghost after = before.push((name@, None));
        proof {
            assert(after.drop_last() =~= before);
        }
        Writer { items: self.items, slots: Ghost(after) }
    }

    /// Writes a field that is always there.
    pub fn put<T: Schema>(self, name: &str, value: &T) -> (w: Writer)
        ensures
            w.slots() == self.slots().push(slot::<T>(name@, value.deep_view())),
    {
        self.put_node(name, value.to_node())
    }

    /// Writes a field that may be left out: nothing where it is absent.
    pub fn put_opt<T: Schema>(self, name: &str, value: &Option<T>) -> (w: Writer)
        ensures
            w.slots() == self.slots().push(slot_opt::<T>(name@, value.deep_view())),
    {
        match value {
            Some(x) => self.put_node(name, x.to_node()),
            None => self.put_nothing(name),
        }
    }

    /// The mapping that was written.
    pub fn finish(self) -> (n: Node)
        ensures
            n@ == record_node(present(self.slots())),
    {
        proof {
            use_type_invariant(&self);
            lemma_mapping_view(self.items);
        }
        Node::Mapping(self.items)
    }
}

} // verus!
