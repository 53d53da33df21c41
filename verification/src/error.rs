//! Why a document is not a configuration, and where in the document.

use vstd::prelude::*;
use crate::text::{decimal, decimal_text};

verus! {

/// The nature of a failure.
#[derive(Clone, Copy, Debug, PartialEq, Eq, Structural)]
pub enum ErrorKind {
    /// The text is not one YAML document of plain values, or a value has no
    /// YAML text.
    Malformed,
    /// A value is not of the kind that its place asks for: a mapping, a
    /// sequence, text, a number, a whole number that fits, a truth value. A
    /// mapping with a key that is not text, or with a key that occurs twice,
    /// is no mapping in this sense.
    TypeMismatch,
    /// A mapping holds a key that is not declared for its level.
    UnknownField,
    /// A mapping lacks a key that its level requires.
    MissingRequiredField,
    /// A discriminant names no variant.
    UnrecognizedDiscriminant,
    /// The keys of a mapping fit none of the shapes of a union that is told
    /// apart by its keys.
    NoVariantMatched,
}

/// One step of the way from the root of a document to a value in it.
#[derive(Clone, Debug, PartialEq, Eq)]
pub enum Segment {
    /// The value under this key of a mapping.
    Field(String),
    /// The item at this position of a sequence.
    Index(usize),
}

/// The mathematical value of a [`Segment`].
pub enum SegmentView {
    Field(Seq<char>),
    Index(usize),
}

impl DeepView for Segment {
    type V = SegmentView;

    open spec fn deep_view(&self) -> SegmentView {
        match self {
            Segment::Field(name) => SegmentView::Field(name@),
            Segment::Index(i) => SegmentView::Index(*i),
        }
    }
}

/// A failure to read a configuration: its kind and the place of the value
/// that it is about, as the way from the root of the document.
#[derive(Clone, Debug, PartialEq, Eq)]
pub struct SchemaError {
    pub kind: ErrorKind,
    pub path: Vec<Segment>,
    /// More about the failure, for a reader: what the YAML reader or writer
    /// said, where the kind is [`ErrorKind::Malformed`]; the shapes that were
    /// tried, where it is [`ErrorKind::NoVariantMatched`]; empty otherwise.
    pub detail: String,
}

/// The mathematical value of a [`SchemaError`].
pub struct Fault {
    pub kind: ErrorKind,
    pub path: Seq<SegmentView>,
    pub detail: Seq<char>,
}

impl Fault {
    /// A failure about the value at hand.
    pub open spec fn here(kind: ErrorKind) -> Fault {
        Fault { kind, path: Seq::empty(), detail: Seq::empty() }
    }

    /// The keys of the mapping at hand fit none of `shapes`.
    pub open spec fn no_variant(shapes: Seq<char>) -> Fault {
        Fault { kind: ErrorKind::NoVariantMatched, path: Seq::empty(), detail: shapes }
    }

    /// The same failure, seen from one step further up.
    pub open spec fn under(self, step: SegmentView) -> Fault {
        Fault { kind: self.kind, path: seq![step] + self.path, detail: self.detail }
    }

    /// The same failure, seen from the mapping that holds the value under
    /// `name`.
    pub open spec fn under_field(self, name: Seq<char>) -> Fault {
        self.under(SegmentView::Field(name))
    }

    /// A failure about the value under `name` of the mapping at hand.
    pub open spec fn at_field(kind: ErrorKind, name: Seq<char>) -> Fault {
        Fault::here(kind).under_field(name)
    }
}

impl ErrorKind {
    /// The kind in words.
    pub open spec fn text(self) -> Seq<char> {
        match self {
            ErrorKind::Malformed => "malformed document"@,
            ErrorKind::TypeMismatch => "type mismatch"@,
            ErrorKind::UnknownField => "unknown field"@,
            ErrorKind::MissingRequiredField => "missing required field"@,
            ErrorKind::UnrecognizedDiscriminant => "unrecognized discriminant"@,
            ErrorKind::NoVariantMatched => "no variant matched"@,
        }
    }

    /// The kind in words.
    pub fn as_str(&self) -> (r: &'static str)
        ensures
            r@ == self.text(),
    {
        match self {
            ErrorKind::Malformed => "malformed document",
            ErrorKind::TypeMismatch => "type mismatch",
            ErrorKind::UnknownField => "unknown field",
            ErrorKind::MissingRequiredField => "missing required field",
            ErrorKind::UnrecognizedDiscriminant => "unrecognized discriminant",
            ErrorKind::NoVariantMatched => "no variant matched",
        }
    }
}

impl SegmentView {
    /// The step as it is written in a path: a key after a dot, but for the
    /// first step; a position in square brackets.
    pub open spec fn text(self, first: bool) -> Seq<char> {
        match self {
            SegmentView::Field(name) => if first {
                name
            } else {
                "."@ + name
            },
            SegmentView::Index(i) => "["@ + decimal(i as nat) + "]"@,
        }
    }
}

/// The steps of a path, written one after the other: `devices.capture.type`,
/// `pipeline[1].name`.
pub open spec fn path_text(path: Seq<SegmentView>) -> Seq<char>
    decreases path.len(),
{
    if path.len() == 0 {
        Seq::empty()
    } else {
        path_text(path.drop_last()) + path.last().text(path.len() == 1)
    }
}

impl Fault {
    /// The failure in words: the kind; then, where the failure is not about
    /// the root, ` at ` and the path; then, where there is a detail, `: ` and
    /// the detail.
    pub open spec fn message(self) -> Seq<char> {
        self.kind.text() + (if self.path.len() > 0 {
            " at "@ + path_text(self.path)
        } else {
            Seq::empty()
        }) + (if self.detail.len() > 0 {
            ": "@ + self.detail
        } else {
            Seq::empty()
        })
    }
}

impl DeepView for SchemaError {
    type V = Fault;

    open spec fn deep_view(&self) -> Fault {
        Fault { kind: self.kind, path: self.path.deep_view(), detail: self.detail@ }
    }
}

impl SchemaError {
    /// A failure about the value at hand.
    pub fn here(kind: ErrorKind) -> (e: SchemaError)
        ensures
            e.deep_view() == Fault::here(kind),
    {
        let e = SchemaError { kind, path: Vec::new(), detail: String::new() };
        assert(e.path.deep_view() =~= Seq::empty());
        e
    }

    /// The text is no document, or a value has no text: with what the YAML
    /// reader or writer said.
    pub fn malformed(detail: String) -> (e: SchemaError)
        ensures
            e.deep_view() == (Fault {
                kind: ErrorKind::Malformed,
                path: Seq::empty(),
                detail: detail@,
            }),
    {
        let e = SchemaError { kind: ErrorKind::Malformed, path: Vec::new(), detail };
        assert(e.path.deep_view() =~= Seq::empty());
        e
    }

    /// The failure in words, for a reader.
    pub fn message(&self) -> (r: String)
        ensures
            r@ == self.deep_view().message(),
    {
        let ghost path = self.path.deep_view();
        let mut place = String::new();
        let mut i: usize = 0;
        while i < self.path.len()
            invariant
                i <= self.path@.len(),
                path == self.path.deep_view(),
                path.len() == self.path@.len(),
                place@ == path_text(path.take(i as int)),
            decreases self.path@.len() - i,
        {
            proof {
                let next = path.take(i + 1);
                assert(next.drop_last() =~= path.take(i as int));
                assert(next.last() == self.path@[i as int].deep_view());
            }
            match &self.path[i] {
                Segment::Field(name) => {
                    if i > 0 {
                        place.append(".");
                    }
                    place.append(name.as_str());
                },
                Segment::Index(k) => {
                    place.append("[");
                    place.append(decimal_text(*k).as_str());
                    place.append("]");
                },
            }
            proof {
                assert(place@ =~= path_text(path.take(i + 1)));
            }
            i += 1;
        }
        proof {
            assert(path.take(path.len() as int) =~= path);
        }
        let mut r = String::from_str(self.kind.as_str());
        if self.path.len() > 0 {
            r.append(" at ");
            r.append(place.as_str());
        }
        if !self.detail.as_str().is_empty() {
            r.append(": ");
            r.append(self.detail.as_str());
        }
        proof {
            assert(r@ =~= self.deep_view().message());
        }
        r
    }

    /// The keys of the mapping at hand fit none of `shapes`.
    pub fn no_variant(shapes: &str) -> (e: SchemaError)
        ensures
            e.deep_view() == Fault::no_variant(shapes@),
    {
        let e = SchemaError {
            kind: ErrorKind::NoVariantMatched,
            path: Vec::new(),
            detail: String::from_str(shapes),
        };
        assert(e.path.deep_view() =~= Seq::empty());
        e
    }

    /// The same failure, seen from one step further up.
    pub fn under(self, step: Segment) -> (e: SchemaError)
        ensures
            e.deep_view() == self.deep_view().under(step.deep_view()),
    {
        let ghost before = self.path.deep_view();
        let ghost head = step.deep_view();
        let mut path = self.path;
        path.insert(0, step);
        assert(path.deep_view() =~= seq![head] + before);
        SchemaError { kind: self.kind, path, detail: self.detail }
    }

    /// The same failure, seen from the mapping that holds the value under
    /// `name`.
    pub fn under_field(self, name: &str) -> (e: SchemaError)
        ensures
            e.deep_view() == self.deep_view().under_field(name@),
    {
        self.under(Segment::Field(String::from_str(name)))
    }

    /// A failure about the value under `name` of the mapping at hand.
    pub fn at_field(kind: ErrorKind, name: &str) -> (e: SchemaError)
        ensures
            e.deep_view() == Fault::at_field(kind, name@),
    {
        SchemaError::here(kind).under_field(name)
    }
}

} // verus!
