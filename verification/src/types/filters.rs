//! Filters and their parameters.

use vstd::prelude::*;
use crate::composite::Record;
use crate::error::{Fault, SchemaError};
use crate::fields::{texts, Fields, Writer};
use crate::likeness::{
    alike_entries, lemma_alike_slots, lemma_matched_none, lemma_matched_optional,
    lemma_matched_required, lemma_tagged_faithful, lemma_untagged_distinct,
};
use crate::node::{Node, NodeView, Numeral, NumeralView};
use crate::record::{
    decode_tagged, distinct_keys, distinct_names, entries, field, fits, has_key, is_record,
    lemma_has_field, lemma_optional, lemma_present, lemma_present_known, lemma_required,
    lemma_slot_names, lemma_tagged_round_trip, lemma_unknown_field, names_slot, optional, present,
    required, slot, slot_opt, tag_key, tag_of, tagged_node, unknown_field, untagged, Entries, Slot,
};
use crate::schema::Schema;
use crate::spelling::Spelled;
use crate::text::same_text;
use super::common::{FileFormat, GainScale, LoudnessFader, TimeUnit, VolumeFader};

verus! {

/// Coefficients of a convolution in a file of text or of raw samples.
#[derive(Clone, Debug, PartialEq, Eq)]
pub struct ConvParametersRaw {
    pub filename: String,
    pub format: Option<FileFormat>,
    pub skip_bytes_lines: Option<usize>,
    pub read_bytes_lines: Option<usize>,
}

/// The mathematical value of a [`ConvParametersRaw`].
pub struct ConvParametersRawView {
    pub filename: Seq<char>,
    pub format: Option<FileFormat>,
    pub skip_bytes_lines: Option<usize>,
    pub read_bytes_lines: Option<usize>,
}

impl DeepView for ConvParametersRaw {
    type V = ConvParametersRawView;

    open spec fn deep_view(&self) -> ConvParametersRawView {
        ConvParametersRawView {
            filename: self.filename.deep_view(),
            format: self.format.deep_view(),
            skip_bytes_lines: self.skip_bytes_lines.deep_view(),
            read_bytes_lines: self.read_bytes_lines.deep_view(),
        }
    }
}

impl ConvParametersRaw {
    /// The keys that the record declares.
    pub open spec fn names() -> Seq<Seq<char>> {
        seq!["filename"@, "format"@, "skip_bytes_lines"@, "read_bytes_lines"@]
    }

    /// The keys of the record are distinct, and none is the key of a discriminant.
    pub proof fn lemma_names()
        ensures
            Self::names().no_duplicates(),
            !Self::names().contains(tag_key()),
    {
        reveal_strlit("type");
        reveal_strlit("filename");
        reveal_strlit("format");
        reveal_strlit("skip_bytes_lines");
        reveal_strlit("read_bytes_lines");
        assert("type"@.len() == 4);
        assert("filename"@.len() == 8);
        assert("format"@.len() == 6);
        assert("skip_bytes_lines"@.len() == 16 && "skip_bytes_lines"@[0] == 's');
        assert("read_bytes_lines"@.len() == 16 && "read_bytes_lines"@[0] == 'r');
    }
}

impl Record for ConvParametersRaw {
    open spec fn slots(v: ConvParametersRawView) -> Seq<Slot> {
        seq![
            slot::<String>("filename"@, v.filename),
            slot_opt::<FileFormat>("format"@, v.format),
            slot_opt::<usize>("skip_bytes_lines"@, v.skip_bytes_lines),
            slot_opt::<usize>("read_bytes_lines"@, v.read_bytes_lines),
        ]
    }

    open spec fn decode_fields(m: Entries) -> Result<ConvParametersRawView, Fault> {
        let filename = required::<String>(m, "filename"@);
        let format = optional::<FileFormat>(m, "format"@);
        let skip_bytes_lines = optional::<usize>(m, "skip_bytes_lines"@);
        let read_bytes_lines = optional::<usize>(m, "read_bytes_lines"@);
        if let Some(e) = unknown_field(m, Self::names()) {
            Err(e)
        } else if filename is Err {
            Err(filename->Err_0)
        } else if format is Err {
            Err(format->Err_0)
        } else if skip_bytes_lines is Err {
            Err(skip_bytes_lines->Err_0)
        } else if read_bytes_lines is Err {
            Err(read_bytes_lines->Err_0)
        } else {
            Ok(
                ConvParametersRawView {
                    filename: filename->Ok_0,
                    format: format->Ok_0,
                    skip_bytes_lines: skip_bytes_lines->Ok_0,
                    read_bytes_lines: read_bytes_lines->Ok_0,
                },
            )
        }
    }

    fn read_fields(f: &Fields) -> (r: Result<ConvParametersRaw, SchemaError>) {
        let known = vec!["filename", "format", "skip_bytes_lines", "read_bytes_lines"];
        proof {
            assert(texts(known@) =~= Self::names());
        }
        f.deny_unknown(&known)?;
        let filename = f.required::<String>("filename")?;
        let format = f.optional::<FileFormat>("format")?;
        let skip_bytes_lines = f.optional::<usize>("skip_bytes_lines")?;
        let read_bytes_lines = f.optional::<usize>("read_bytes_lines")?;
        Ok(ConvParametersRaw { filename, format, skip_bytes_lines, read_bytes_lines })
    }

    fn write_fields(&self, w: Writer) -> (r: Writer) {
        let ghost before = w.slots();
        let w = w.put::<String>("filename", &self.filename);
        let w = w.put_opt::<FileFormat>("format", &self.format);
        let w = w.put_opt::<usize>("skip_bytes_lines", &self.skip_bytes_lines);
        let w = w.put_opt::<usize>("read_bytes_lines", &self.read_bytes_lines);
        proof {
            assert(w.slots() =~= before + Self::slots(self.deep_view()));
        }
        w
    }

    proof fn lemma_fields(v: ConvParametersRawView) {
        Self::lemma_names();
        let s = Self::slots(v);
        lemma_slot_names(s, Self::names());
        lemma_present_known(s, Self::names());
        lemma_required::<String>(s, 0, "filename"@, v.filename);
        lemma_optional::<FileFormat>(s, 1, "format"@, v.format);
        lemma_optional::<usize>(s, 2, "skip_bytes_lines"@, v.skip_bytes_lines);
        lemma_optional::<usize>(s, 3, "read_bytes_lines"@, v.read_bytes_lines);
    }

    proof fn lemma_fields_faithful(m: Entries) {
        if let Ok(v) = Self::decode_fields(m) {
            Self::lemma_names();
            lemma_unknown_field(m, Self::names());
            let s = lemma_matched_none(m);
            let s = lemma_matched_required::<String>(m, s, "filename"@, v.filename);
            let s = lemma_matched_optional::<FileFormat>(m, s, "format"@, v.format);
            let s = lemma_matched_optional::<usize>(m, s, "skip_bytes_lines"@, v.skip_bytes_lines);
            let s = lemma_matched_optional::<usize>(m, s, "read_bytes_lines"@, v.read_bytes_lines);
            assert(s =~= Self::slots(v));
            lemma_slot_names(s, Self::names());
            lemma_alike_slots(m, s, Self::names());
        }
    }
}

/// Coefficients of a convolution in a wav file.
#[derive(Clone, Debug, PartialEq, Eq)]
pub struct ConvParametersWav {
    pub filename: String,
    pub channel: Option<usize>,
}

/// The mathematical value of a [`ConvParametersWav`].
pub struct ConvParametersWavView {
    pub filename: Seq<char>,
    pub channel: Option<usize>,
}

impl DeepView for ConvParametersWav {
    type V = ConvParametersWavView;

    open spec fn deep_view(&self) -> ConvParametersWavView {
        ConvParametersWavView {
            filename: self.filename.deep_view(),
            channel: self.channel.deep_view(),
        }
    }
}

impl ConvParametersWav {
    /// The keys that the record declares.
    pub open spec fn names() -> Seq<Seq<char>> {
        seq!["filename"@, "channel"@]
    }

    /// The keys of the record are distinct, and none is the key of a discriminant.
    pub proof fn lemma_names()
        ensures
            Self::names().no_duplicates(),
            !Self::names().contains(tag_key()),
    {
        reveal_strlit("type");
        reveal_strlit("filename");
        reveal_strlit("channel");
        assert("type"@.len() == 4);
        assert("filename"@.len() == 8);
        assert("channel"@.len() == 7);
    }
}

impl Record for ConvParametersWav {
    open spec fn slots(v: ConvParametersWavView) -> Seq<Slot> {
        seq![
            slot::<String>("filename"@, v.filename),
            slot_opt::<usize>("channel"@, v.channel),
        ]
    }

    open spec fn decode_fields(m: Entries) -> Result<ConvParametersWavView, Fault> {
        let filename = required::<String>(m, "filename"@);
        let channel = optional::<usize>(m, "channel"@);
        if let Some(e) = unknown_field(m, Self::names()) {
            Err(e)
        } else if filename is Err {
            Err(filename->Err_0)
        } else if channel is Err {
            Err(channel->Err_0)
        } else {
            Ok(ConvParametersWavView { filename: filename->Ok_0, channel: channel->Ok_0 })
        }
    }

    fn read_fields(f: &Fields) -> (r: Result<ConvParametersWav, SchemaError>) {
        let known = vec!["filename", "channel"];
        proof {
            assert(texts(known@) =~= Self::names());
        }
        f.deny_unknown(&known)?;
        let filename = f.required::<String>("filename")?;
        let channel = f.optional::<usize>("channel")?;
        Ok(ConvParametersWav { filename, channel })
    }

    fn write_fields(&self, w: Writer) -> (r: Writer) {
        let ghost before = w.slots();
        let w = w.put::<String>("filename", &self.filename);
        let w = w.put_opt::<usize>("channel", &self.channel);
        proof {
            assert(w.slots() =~= before + Self::slots(self.deep_view()));
        }
        w
    }

    proof fn lemma_fields(v: ConvParametersWavView) {
        Self::lemma_names();
        let s = Self::slots(v);
        lemma_slot_names(s, Self::names());
        lemma_present_known(s, Self::names());
        lemma_required::<String>(s, 0, "filename"@, v.filename);
        lemma_optional::<usize>(s, 1, "channel"@, v.channel);
    }

    proof fn lemma_fields_faithful(m: Entries) {
        if let Ok(v) = Self::decode_fields(m) {
            Self::lemma_names();
            lemma_unknown_field(m, Self::names());
            let s = lemma_matched_none(m);
            let s = lemma_matched_required::<String>(m, s, "filename"@, v.filename);
            let s = lemma_matched_optional::<usize>(m, s, "channel"@, v.channel);
            assert(s =~= Self::slots(v));
            lemma_slot_names(s, Self::names());
            lemma_alike_slots(m, s, Self::names());
        }
    }
}

/// Where the coefficients of a convolution come from.
#[derive(Clone, Debug, PartialEq, Eq)]
pub enum ConvParameters {
    Raw(ConvParametersRaw),
    Wav(ConvParametersWav),
    Values { values: Vec<Numeral> },
    Dummy { length: usize },
}

/// The mathematical value of a [`ConvParameters`].
pub enum ConvParametersView {
    Raw(ConvParametersRawView),
    Wav(ConvParametersWavView),
    Values { values: Seq<NumeralView> },
    Dummy { length: usize },
}

/// The discriminants of [`ConvParameters`].
#[derive(Clone, Copy, Debug, PartialEq, Eq)]
pub enum ConvParametersKind {
    Raw,
    Wav,
    Values,
    Dummy,
}

impl Spelled for ConvParametersKind {
    open spec fn name(self) -> Seq<char> {
        match self {
            ConvParametersKind::Raw => "Raw"@,
            ConvParametersKind::Wav => "Wav"@,
            ConvParametersKind::Values => "Values"@,
            ConvParametersKind::Dummy => "Dummy"@,
        }
    }

    open spec fn named(t: Seq<char>) -> Option<ConvParametersKind> {
        if t == "Raw"@ {
            Some(ConvParametersKind::Raw)
        } else if t == "Wav"@ {
            Some(ConvParametersKind::Wav)
        } else if t == "Values"@ {
            Some(ConvParametersKind::Values)
        } else if t == "Dummy"@ {
            Some(ConvParametersKind::Dummy)
        } else {
            None
        }
    }

    fn as_str(&self) -> (r: &'static str) {
        match self {
            ConvParametersKind::Raw => "Raw",
            ConvParametersKind::Wav => "Wav",
            ConvParametersKind::Values => "Values",
            ConvParametersKind::Dummy => "Dummy",
        }
    }

    fn from_name(t: &str) -> (r: Option<ConvParametersKind>) {
        if same_text(t, "Raw") {
            Some(ConvParametersKind::Raw)
        } else if same_text(t, "Wav") {
            Some(ConvParametersKind::Wav)
        } else if same_text(t, "Values") {
            Some(ConvParametersKind::Values)
        } else if same_text(t, "Dummy") {
            Some(ConvParametersKind::Dummy)
        } else {
            None
        }
    }

    proof fn lemma_named(self) {
        reveal_strlit("Raw");
        reveal_strlit("Wav");
        reveal_strlit("Values");
        reveal_strlit("Dummy");
        assert("Raw"@.len() == 3 && "Raw"@[0] == 'R');
        assert("Wav"@.len() == 3 && "Wav"@[0] == 'W');
        assert("Values"@.len() == 6);
        assert("Dummy"@.len() == 5);
    }
}

impl DeepView for ConvParameters {
    type V = ConvParametersView;

    open spec fn deep_view(&self) -> ConvParametersView {
        match self {
            ConvParameters::Raw(p) => ConvParametersView::Raw(p.deep_view()),
            ConvParameters::Wav(p) => ConvParametersView::Wav(p.deep_view()),
            ConvParameters::Values { values } => ConvParametersView::Values {
                values: values.deep_view(),
            },
            ConvParameters::Dummy { length } => ConvParametersView::Dummy {
                length: length.deep_view(),
            },
        }
    }
}

impl ConvParameters {
    /// The keys that the variant `Values` declares.
    pub open spec fn names_values() -> Seq<Seq<char>> {
        seq!["values"@]
    }

    /// The keys of the variant `Values` are distinct, and none is the key of a discriminant.
    pub proof fn lemma_names_values()
        ensures
            Self::names_values().no_duplicates(),
            !Self::names_values().contains(tag_key()),
    {
        reveal_strlit("type");
        reveal_strlit("values");
        assert("type"@.len() == 4);
        assert("values"@.len() == 6);
    }

    /// What the variant `Values` writes: one slot for each field.
    pub open spec fn slots_values(values: Seq<NumeralView>) -> Seq<Slot> {
        seq![
            slot::<Vec<Numeral>>("values"@, values),
        ]
    }

    /// What entries stand for, read as the variant `Values`.
    pub open spec fn decode_values(m: Entries) -> Result<ConvParametersView, Fault> {
        let values = required::<Vec<Numeral>>(m, "values"@);
        if let Some(e) = unknown_field(m, Self::names_values()) {
            Err(e)
        } else if values is Err {
            Err(values->Err_0)
        } else {
            Ok(ConvParametersView::Values { values: values->Ok_0 })
        }
    }

    /// Reads the variant `Values`.
    pub fn read_values(f: &Fields) -> (r: Result<ConvParameters, SchemaError>)
        ensures
            r matches Ok(x) ==> Self::decode_values(f@) == Ok::<ConvParametersView, Fault>(x.deep_view()),
            r matches Err(e) ==> Self::decode_values(f@) == Err::<ConvParametersView, Fault>(e.deep_view()),
    {
        let known = vec!["values"];
        proof {
            assert(texts(known@) =~= Self::names_values());
        }
        f.deny_unknown(&known)?;
        let values = f.required::<Vec<Numeral>>("values")?;
        Ok(ConvParameters::Values { values })
    }

    /// Writes the fields of the variant `Values` after what `w` holds.
    pub fn write_values(w: Writer, values: &Vec<Numeral>) -> (r: Writer)
        ensures
            r.slots() == w.slots() + Self::slots_values(values.deep_view()),
    {
        let ghost before = w.slots();
        let w = w.put::<Vec<Numeral>>("values", values);
        proof {
            assert(w.slots() =~= before + Self::slots_values(values.deep_view()));
        }
        w
    }

    /// Reading what the variant `Values` wrote gives the fields back.
    pub proof fn lemma_values(values: Seq<NumeralView>)
        ensures
            distinct_names(Self::slots_values(values)),
            !names_slot(Self::slots_values(values), tag_key()),
            Self::decode_values(present(Self::slots_values(values))) == Ok::<ConvParametersView, Fault>(
                ConvParametersView::Values { values: values },
            ),
    {
        Self::lemma_names_values();
        let s = Self::slots_values(values);
        lemma_slot_names(s, Self::names_values());
        lemma_present_known(s, Self::names_values());
        lemma_required::<Vec<Numeral>>(s, 0, "values"@, values);
    }

    /// What the variant `Values` writes is like any entries that its fields were read from.
    pub proof fn lemma_like_values(m: Entries)
        requires
            distinct_keys(m),
        ensures
            Self::decode_values(m) matches Ok(ConvParametersView::Values { values }) ==> alike_entries(
                m,
                present(Self::slots_values(values)),
            ),
    {
        if let Ok(ConvParametersView::Values { values }) = Self::decode_values(m) {
            Self::lemma_names_values();
            lemma_unknown_field(m, Self::names_values());
            let s = lemma_matched_none(m);
            let s = lemma_matched_required::<Vec<Numeral>>(m, s, "values"@, values);
            assert(s =~= Self::slots_values(values));
            lemma_slot_names(s, Self::names_values());
            lemma_alike_slots(m, s, Self::names_values());
        }
    }

    /// The keys that the variant `Dummy` declares.
    pub open spec fn names_dummy() -> Seq<Seq<char>> {
        seq!["length"@]
    }

    /// The keys of the variant `Dummy` are distinct, and none is the key of a discriminant.
    pub proof fn lemma_names_dummy()
        ensures
            Self::names_dummy().no_duplicates(),
            !Self::names_dummy().contains(tag_key()),
    {
        reveal_strlit("type");
        reveal_strlit("length");
        assert("type"@.len() == 4);
        assert("length"@.len() == 6);
    }

    /// What the variant `Dummy` writes: one slot for each field.
    pub open spec fn slots_dummy(length: usize) -> Seq<Slot> {
        seq![
            slot::<usize>("length"@, length),
        ]
    }

    /// What entries stand for, read as the variant `Dummy`.
    pub open spec fn decode_dummy(m: Entries) -> Result<ConvParametersView, Fault> {
        let length = required::<usize>(m, "length"@);
        if let Some(e) = unknown_field(m, Self::names_dummy()) {
            Err(e)
        } else if length is Err {
            Err(length->Err_0)
        } else {
            Ok(ConvParametersView::Dummy { length: length->Ok_0 })
        }
    }

    /// Reads the variant `Dummy`.
    pub fn read_dummy(f: &Fields) -> (r: Result<ConvParameters, SchemaError>)
        ensures
            r matches Ok(x) ==> Self::decode_dummy(f@) == Ok::<ConvParametersView, Fault>(x.deep_view()),
            r matches Err(e) ==> Self::decode_dummy(f@) == Err::<ConvParametersView, Fault>(e.deep_view()),
    {
        let known = vec!["length"];
        proof {
            assert(texts(known@) =~= Self::names_dummy());
        }
        f.deny_unknown(&known)?;
        let length = f.required::<usize>("length")?;
        Ok(ConvParameters::Dummy { length })
    }

    /// Writes the fields of the variant `Dummy` after what `w` holds.
    pub fn write_dummy(w: Writer, length: &usize) -> (r: Writer)
        ensures
            r.slots() == w.slots() + Self::slots_dummy(length.deep_view()),
    {
        let ghost before = w.slots();
        let w = w.put::<usize>("length", length);
        proof {
            assert(w.slots() =~= before + Self::slots_dummy(length.deep_view()));
        }
        w
    }

    /// Reading what the variant `Dummy` wrote gives the fields back.
    pub proof fn lemma_dummy(length: usize)
        ensures
            distinct_names(Self::slots_dummy(length)),
            !names_slot(Self::slots_dummy(length), tag_key()),
            Self::decode_dummy(present(Self::slots_dummy(length))) == Ok::<ConvParametersView, Fault>(
                ConvParametersView::Dummy { length: length },
            ),
    {
        Self::lemma_names_dummy();
        let s = Self::slots_dummy(length);
        lemma_slot_names(s, Self::names_dummy());
        lemma_present_known(s, Self::names_dummy());
        lemma_required::<usize>(s, 0, "length"@, length);
    }

    /// What the variant `Dummy` writes is like any entries that its fields were read from.
    pub proof fn lemma_like_dummy(m: Entries)
        requires
            distinct_keys(m),
        ensures
            Self::decode_dummy(m) matches Ok(ConvParametersView::Dummy { length }) ==> alike_entries(
                m,
                present(Self::slots_dummy(length)),
            ),
    {
        if let Ok(ConvParametersView::Dummy { length }) = Self::decode_dummy(m) {
            Self::lemma_names_dummy();
            lemma_unknown_field(m, Self::names_dummy());
            let s = lemma_matched_none(m);
            let s = lemma_matched_required::<usize>(m, s, "length"@, length);
            assert(s =~= Self::slots_dummy(length));
            lemma_slot_names(s, Self::names_dummy());
            lemma_alike_slots(m, s, Self::names_dummy());
        }
    }

    /// The discriminant of a value.
    pub open spec fn kind_of(v: ConvParametersView) -> ConvParametersKind {
        match v {
            ConvParametersView::Raw(_) => ConvParametersKind::Raw,
            ConvParametersView::Wav(_) => ConvParametersKind::Wav,
            ConvParametersView::Values { .. } => ConvParametersKind::Values,
            ConvParametersView::Dummy { .. } => ConvParametersKind::Dummy,
        }
    }

    /// What a value writes beside its discriminant.
    pub open spec fn variant_slots(v: ConvParametersView) -> Seq<Slot> {
        match v {
            ConvParametersView::Raw(p) => <ConvParametersRaw as Record>::slots(p),
            ConvParametersView::Wav(p) => <ConvParametersWav as Record>::slots(p),
            ConvParametersView::Values { values } => Self::slots_values(values),
            ConvParametersView::Dummy { length } => Self::slots_dummy(length),
        }
    }

    /// The value that entries stand for, read as the variant that `k` selects.
    pub open spec fn decode_variant(k: ConvParametersKind, m: Entries) -> Result<ConvParametersView, Fault> {
        match k {
            ConvParametersKind::Raw => match <ConvParametersRaw as Record>::decode_fields(m) {
                Ok(p) => Ok(ConvParametersView::Raw(p)),
                Err(e) => Err(e),
            },
            ConvParametersKind::Wav => match <ConvParametersWav as Record>::decode_fields(m) {
                Ok(p) => Ok(ConvParametersView::Wav(p)),
                Err(e) => Err(e),
            },
            ConvParametersKind::Values => Self::decode_values(m),
            ConvParametersKind::Dummy => Self::decode_dummy(m),
        }
    }
}

impl Schema for ConvParameters {
    open spec fn decode(n: NodeView) -> Result<ConvParametersView, Fault> {
        decode_tagged(n, |k: ConvParametersKind, m: Entries| Self::decode_variant(k, m))
    }

    open spec fn encode(v: ConvParametersView) -> NodeView {
        tagged_node(Self::kind_of(v).name(), Self::variant_slots(v))
    }

    fn from_node(n: &Node) -> (r: Result<ConvParameters, SchemaError>) {
        let f = Fields::of(n)?;
        let (k, rest) = f.tagged::<ConvParametersKind>()?;
        match k {
            ConvParametersKind::Raw => match <ConvParametersRaw as Record>::read_fields(&rest) {
                Ok(p) => Ok(ConvParameters::Raw(p)),
                Err(e) => Err(e),
            },
            ConvParametersKind::Wav => match <ConvParametersWav as Record>::read_fields(&rest) {
                Ok(p) => Ok(ConvParameters::Wav(p)),
                Err(e) => Err(e),
            },
            ConvParametersKind::Values => Self::read_values(&rest),
            ConvParametersKind::Dummy => Self::read_dummy(&rest),
        }
    }

    fn to_node(&self) -> (n: Node) {
        let ghost v = self.deep_view();
        let w = Writer::tagged(&self.kind());
        let w = match self {
            ConvParameters::Raw(p) => p.write_fields(w),
            ConvParameters::Wav(p) => p.write_fields(w),
            ConvParameters::Values { values } => Self::write_values(w, values),
            ConvParameters::Dummy { length } => Self::write_dummy(w, length),
        };
        w.finish()
    }

    proof fn lemma_round_trip(v: ConvParametersView) {
        Self::lemma_variant(v);
        lemma_tagged_round_trip(
            Self::kind_of(v),
            Self::variant_slots(v),
            |k: ConvParametersKind, m: Entries| Self::decode_variant(k, m),
        );
    }

    proof fn lemma_faithful(n: NodeView) {
        if is_record(n) {
            if let Ok(k) = tag_of::<ConvParametersKind>(entries(n)) {
                lemma_untagged_distinct::<ConvParametersKind>(n);
                Self::lemma_variant_like(k, untagged(entries(n)));
                if let Ok(v) = Self::decode_variant(k, untagged(entries(n))) {
                    Self::lemma_variant(v);
                    lemma_tagged_faithful(n, k, Self::variant_slots(v));
                }
            }
        }
    }
}

impl ConvParameters {
    /// Reading what a value writes beside its discriminant, as the variant of
    /// the value, gives the value back; its slots have distinct names, none of
    /// them the key of the discriminant.
    pub proof fn lemma_variant(v: ConvParametersView)
        ensures
            distinct_names(Self::variant_slots(v)),
            !names_slot(Self::variant_slots(v), tag_key()),
            Self::decode_variant(Self::kind_of(v), present(Self::variant_slots(v))) == Ok::<ConvParametersView, Fault>(v),
    {
        match v {
            ConvParametersView::Raw(p) => {
                <ConvParametersRaw as Record>::lemma_fields(p);
            },
            ConvParametersView::Wav(p) => {
                <ConvParametersWav as Record>::lemma_fields(p);
            },
            ConvParametersView::Values { values } => {
                Self::lemma_values(values);
            },
            ConvParametersView::Dummy { length } => {
                Self::lemma_dummy(length);
            },
        }
    }

    /// What a value writes beside its discriminant is like any entries that
    /// the value was read from as the variant that `k` selects; and the value
    /// is of that variant.
    pub proof fn lemma_variant_like(k: ConvParametersKind, m: Entries)
        requires
            distinct_keys(m),
        ensures
            Self::decode_variant(k, m) matches Ok(v) ==> Self::kind_of(v) == k && alike_entries(
                m,
                present(Self::variant_slots(v)),
            ),
    {
        match k {
            ConvParametersKind::Raw => {
                <ConvParametersRaw as Record>::lemma_fields_faithful(m);
            },
            ConvParametersKind::Wav => {
                <ConvParametersWav as Record>::lemma_fields_faithful(m);
            },
            ConvParametersKind::Values => {
                Self::lemma_like_values(m);
            },
            ConvParametersKind::Dummy => {
                Self::lemma_like_dummy(m);
            },
        }
    }

    /// The discriminant of the value.
    pub fn kind(&self) -> (k: ConvParametersKind)
        ensures
            k == Self::kind_of(self.deep_view()),
    {
        match self {
            ConvParameters::Raw(_) => ConvParametersKind::Raw,
            ConvParameters::Wav(_) => ConvParametersKind::Wav,
            ConvParameters::Values { .. } => ConvParametersKind::Values,
            ConvParameters::Dummy { .. } => ConvParametersKind::Dummy,
        }
    }
}

/// A shelf, by its quality or by its slope.
#[derive(Clone, Debug, PartialEq, Eq)]
pub enum ShelfSteepness {
    Q { freq: Numeral, q: Numeral, gain: Numeral },
    Slope { freq: Numeral, slope: Numeral, gain: Numeral },
}

/// The mathematical value of a [`ShelfSteepness`].
pub enum ShelfSteepnessView {
    Q { freq: NumeralView, q: NumeralView, gain: NumeralView },
    Slope { freq: NumeralView, slope: NumeralView, gain: NumeralView },
}

impl DeepView for ShelfSteepness {
    type V = ShelfSteepnessView;

    open spec fn deep_view(&self) -> ShelfSteepnessView {
        match self {
            ShelfSteepness::Q { freq, q, gain } => ShelfSteepnessView::Q {
                freq: freq.deep_view(),
                q: q.deep_view(),
                gain: gain.deep_view(),
            },
            ShelfSteepness::Slope { freq, slope, gain } => ShelfSteepnessView::Slope {
                freq: freq.deep_view(),
                slope: slope.deep_view(),
                gain: gain.deep_view(),
            },
        }
    }
}

impl ShelfSteepness {
    /// The keys that the variant `Q` declares.
    pub open spec fn names_q() -> Seq<Seq<char>> {
        seq!["freq"@, "q"@, "gain"@]
    }

    /// The keys that the variant `Q` declares.
    pub fn field_names_q() -> (r: Vec<&'static str>)
        ensures
            texts(r@) == Self::names_q(),
    {
        let r = vec!["freq", "q", "gain"];
        proof {
            assert(texts(r@) =~= Self::names_q());
        }
        r
    }

    /// The keys that the variant `Q` cannot do without.
    pub open spec fn needed_q() -> Seq<Seq<char>> {
        seq!["freq"@, "q"@, "gain"@]
    }

    /// The keys that the variant `Q` cannot do without.
    pub fn needed_names_q() -> (r: Vec<&'static str>)
        ensures
            texts(r@) == Self::needed_q(),
    {
        let r = vec!["freq", "q", "gain"];
        proof {
            assert(texts(r@) =~= Self::needed_q());
        }
        r
    }

    /// The keys of the variant `Q` are distinct, and none is the key of a discriminant.
    pub proof fn lemma_names_q()
        ensures
            Self::names_q().no_duplicates(),
            !Self::names_q().contains(tag_key()),
    {
        reveal_strlit("type");
        reveal_strlit("freq");
        reveal_strlit("q");
        reveal_strlit("gain");
        assert("type"@.len() == 4 && "type"@[0] == 't');
        assert("freq"@.len() == 4 && "freq"@[0] == 'f');
        assert("q"@.len() == 1);
        assert("gain"@.len() == 4 && "gain"@[0] == 'g');
    }

    /// What the variant `Q` writes: one slot for each field.
    pub open spec fn slots_q(freq: NumeralView, q: NumeralView, gain: NumeralView) -> Seq<Slot> {
        seq![
            slot::<Numeral>("freq"@, freq),
            slot::<Numeral>("q"@, q),
            slot::<Numeral>("gain"@, gain),
        ]
    }

    /// What entries stand for, read as the variant `Q`.
    pub open spec fn decode_q(m: Entries) -> Result<ShelfSteepnessView, Fault> {
        let freq = required::<Numeral>(m, "freq"@);
        let q = required::<Numeral>(m, "q"@);
        let gain = required::<Numeral>(m, "gain"@);
        if let Some(e) = unknown_field(m, Self::names_q()) {
            Err(e)
        } else if freq is Err {
            Err(freq->Err_0)
        } else if q is Err {
            Err(q->Err_0)
        } else if gain is Err {
            Err(gain->Err_0)
        } else {
            Ok(ShelfSteepnessView::Q { freq: freq->Ok_0, q: q->Ok_0, gain: gain->Ok_0 })
        }
    }

    /// Reads the variant `Q`.
    pub fn read_q(f: &Fields) -> (r: Result<ShelfSteepness, SchemaError>)
        ensures
            r matches Ok(x) ==> Self::decode_q(f@) == Ok::<ShelfSteepnessView, Fault>(x.deep_view()),
            r matches Err(e) ==> Self::decode_q(f@) == Err::<ShelfSteepnessView, Fault>(e.deep_view()),
    {
        let known = Self::field_names_q();
        f.deny_unknown(&known)?;
        let freq = f.required::<Numeral>("freq")?;
        let q = f.required::<Numeral>("q")?;
        let gain = f.required::<Numeral>("gain")?;
        Ok(ShelfSteepness::Q { freq, q, gain })
    }

    /// Writes the fields of the variant `Q` after what `w` holds.
    pub fn write_q(w: Writer, freq: &Numeral, q: &Numeral, gain: &Numeral) -> (r: Writer)
        ensures
            r.slots() == w.slots() + Self::slots_q(freq.deep_view(), q.deep_view(), gain.deep_view()),
    {
        let ghost before = w.slots();
        let w = w.put::<Numeral>("freq", freq);
        let w = w.put::<Numeral>("q", q);
        let w = w.put::<Numeral>("gain", gain);
        proof {
            assert(w.slots() =~= before + Self::slots_q(freq.deep_view(), q.deep_view(), gain.deep_view()));
        }
        w
    }

    /// Reading what the variant `Q` wrote gives the fields back.
    pub proof fn lemma_q(freq: NumeralView, q: NumeralView, gain: NumeralView)
        ensures
            distinct_names(Self::slots_q(freq, q, gain)),
            !names_slot(Self::slots_q(freq, q, gain), tag_key()),
            Self::decode_q(present(Self::slots_q(freq, q, gain))) == Ok::<ShelfSteepnessView, Fault>(
                ShelfSteepnessView::Q { freq: freq, q: q, gain: gain },
            ),
    {
        Self::lemma_names_q();
        let s = Self::slots_q(freq, q, gain);
        lemma_slot_names(s, Self::names_q());
        lemma_present_known(s, Self::names_q());
        lemma_required::<Numeral>(s, 0, "freq"@, freq);
        lemma_required::<Numeral>(s, 1, "q"@, q);
        lemma_required::<Numeral>(s, 2, "gain"@, gain);
    }

    /// What the variant `Q` writes is like any entries that its fields were read from.
    pub proof fn lemma_like_q(m: Entries)
        requires
            distinct_keys(m),
        ensures
            Self::decode_q(m) matches Ok(ShelfSteepnessView::Q { freq, q, gain }) ==> alike_entries(
                m,
                present(Self::slots_q(freq, q, gain)),
            ),
    {
        if let Ok(ShelfSteepnessView::Q { freq, q, gain }) = Self::decode_q(m) {
            Self::lemma_names_q();
            lemma_unknown_field(m, Self::names_q());
            let s = lemma_matched_none(m);
            let s = lemma_matched_required::<Numeral>(m, s, "freq"@, freq);
            let s = lemma_matched_required::<Numeral>(m, s, "q"@, q);
            let s = lemma_matched_required::<Numeral>(m, s, "gain"@, gain);
            assert(s =~= Self::slots_q(freq, q, gain));
            lemma_slot_names(s, Self::names_q());
            lemma_alike_slots(m, s, Self::names_q());
        }
    }

    /// The keys that the variant `Slope` declares.
    pub open spec fn names_slope() -> Seq<Seq<char>> {
        seq!["freq"@, "slope"@, "gain"@]
    }

    /// The keys that the variant `Slope` declares.
    pub fn field_names_slope() -> (r: Vec<&'static str>)
        ensures
            texts(r@) == Self::names_slope(),
    {
        let r = vec!["freq", "slope", "gain"];
        proof {
            assert(texts(r@) =~= Self::names_slope());
        }
        r
    }

    /// The keys that the variant `Slope` cannot do without.
    pub open spec fn needed_slope() -> Seq<Seq<char>> {
        seq!["freq"@, "slope"@, "gain"@]
    }

    /// The keys that the variant `Slope` cannot do without.
    pub fn needed_names_slope() -> (r: Vec<&'static str>)
        ensures
            texts(r@) == Self::needed_slope(),
    {
        let r = vec!["freq", "slope", "gain"];
        proof {
            assert(texts(r@) =~= Self::needed_slope());
        }
        r
    }

    /// The keys of the variant `Slope` are distinct, and none is the key of a discriminant.
    pub proof fn lemma_names_slope()
        ensures
            Self::names_slope().no_duplicates(),
            !Self::names_slope().contains(tag_key()),
    {
        reveal_strlit("type");
        reveal_strlit("freq");
        reveal_strlit("slope");
        reveal_strlit("gain");
        assert("type"@.len() == 4 && "type"@[0] == 't');
        assert("freq"@.len() == 4 && "freq"@[0] == 'f');
        assert("slope"@.len() == 5);
        assert("gain"@.len() == 4 && "gain"@[0] == 'g');
    }

    /// What the variant `Slope` writes: one slot for each field.
    pub open spec fn slots_slope(freq: NumeralView, slope: NumeralView, gain: NumeralView) -> Seq<Slot> {
        seq![
            slot::<Numeral>("freq"@, freq),
            slot::<Numeral>("slope"@, slope),
            slot::<Numeral>("gain"@, gain),
        ]
    }

    /// What entries stand for, read as the variant `Slope`.
    pub open spec fn decode_slope(m: Entries) -> Result<ShelfSteepnessView, Fault> {
        let freq = required::<Numeral>(m, "freq"@);
        let slope = required::<Numeral>(m, "slope"@);
        let gain = required::<Numeral>(m, "gain"@);
        if let Some(e) = unknown_field(m, Self::names_slope()) {
            Err(e)
        } else if freq is Err {
            Err(freq->Err_0)
        } else if slope is Err {
            Err(slope->Err_0)
        } else if gain is Err {
            Err(gain->Err_0)
        } else {
            Ok(ShelfSteepnessView::Slope { freq: freq->Ok_0, slope: slope->Ok_0, gain: gain->Ok_0 })
        }
    }

    /// Reads the variant `Slope`.
    pub fn read_slope(f: &Fields) -> (r: Result<ShelfSteepness, SchemaError>)
        ensures
            r matches Ok(x) ==> Self::decode_slope(f@) == Ok::<ShelfSteepnessView, Fault>(x.deep_view()),
            r matches Err(e) ==> Self::decode_slope(f@) == Err::<ShelfSteepnessView, Fault>(e.deep_view()),
    {
        let known = Self::field_names_slope();
        f.deny_unknown(&known)?;
        let freq = f.required::<Numeral>("freq")?;
        let slope = f.required::<Numeral>("slope")?;
        let gain = f.required::<Numeral>("gain")?;
        Ok(ShelfSteepness::Slope { freq, slope, gain })
    }

    /// Writes the fields of the variant `Slope` after what `w` holds.
    pub fn write_slope(w: Writer, freq: &Numeral, slope: &Numeral, gain: &Numeral) -> (r: Writer)
        ensures
            r.slots() == w.slots() + Self::slots_slope(freq.deep_view(), slope.deep_view(), gain.deep_view()),
    {
        let ghost before = w.slots();
        let w = w.put::<Numeral>("freq", freq);
        let w = w.put::<Numeral>("slope", slope);
        let w = w.put::<Numeral>("gain", gain);
        proof {
            assert(w.slots() =~= before + Self::slots_slope(freq.deep_view(), slope.deep_view(), gain.deep_view()));
        }
        w
    }

    /// Reading what the variant `Slope` wrote gives the fields back.
    pub proof fn lemma_slope(freq: NumeralView, slope: NumeralView, gain: NumeralView)
        ensures
            distinct_names(Self::slots_slope(freq, slope, gain)),
            !names_slot(Self::slots_slope(freq, slope, gain), tag_key()),
            Self::decode_slope(present(Self::slots_slope(freq, slope, gain))) == Ok::<ShelfSteepnessView, Fault>(
                ShelfSteepnessView::Slope { freq: freq, slope: slope, gain: gain },
            ),
    {
        Self::lemma_names_slope();
        let s = Self::slots_slope(freq, slope, gain);
        lemma_slot_names(s, Self::names_slope());
        lemma_present_known(s, Self::names_slope());
        lemma_required::<Numeral>(s, 0, "freq"@, freq);
        lemma_required::<Numeral>(s, 1, "slope"@, slope);
        lemma_required::<Numeral>(s, 2, "gain"@, gain);
    }

    /// What the variant `Slope` writes is like any entries that its fields were read from.
    pub proof fn lemma_like_slope(m: Entries)
        requires
            distinct_keys(m),
        ensures
            Self::decode_slope(m) matches Ok(ShelfSteepnessView::Slope { freq, slope, gain }) ==> alike_entries(
                m,
                present(Self::slots_slope(freq, slope, gain)),
            ),
    {
        if let Ok(ShelfSteepnessView::Slope { freq, slope, gain }) = Self::decode_slope(m) {
            Self::lemma_names_slope();
            lemma_unknown_field(m, Self::names_slope());
            let s = lemma_matched_none(m);
            let s = lemma_matched_required::<Numeral>(m, s, "freq"@, freq);
            let s = lemma_matched_required::<Numeral>(m, s, "slope"@, slope);
            let s = lemma_matched_required::<Numeral>(m, s, "gain"@, gain);
            assert(s =~= Self::slots_slope(freq, slope, gain));
            lemma_slot_names(s, Self::names_slope());
            lemma_alike_slots(m, s, Self::names_slope());
        }
    }

    /// The shapes that are tried, in this order, each with its keys; a `?`
    /// marks a key that may be left out.
    pub open spec fn shapes() -> Seq<char> {
        "Q {freq, q, gain} | Slope {freq, slope, gain}"@
    }
}

impl Record for ShelfSteepness {
    open spec fn slots(v: ShelfSteepnessView) -> Seq<Slot> {
        match v {
            ShelfSteepnessView::Q { freq, q, gain } => Self::slots_q(freq, q, gain),
            ShelfSteepnessView::Slope { freq, slope, gain } => Self::slots_slope(freq, slope, gain),
        }
    }

    open spec fn decode_fields(m: Entries) -> Result<ShelfSteepnessView, Fault> {
        if fits(m, Self::names_q(), Self::needed_q()) {
            Self::decode_q(m)
        } else if fits(m, Self::names_slope(), Self::needed_slope()) {
            Self::decode_slope(m)
        } else {
            Err(Fault::no_variant(Self::shapes()))
        }
    }

    fn read_fields(f: &Fields) -> (r: Result<ShelfSteepness, SchemaError>) {
        if f.fits(&Self::field_names_q(), &Self::needed_names_q()) {
            return Self::read_q(f);
        }
        if f.fits(&Self::field_names_slope(), &Self::needed_names_slope()) {
            return Self::read_slope(f);
        }
        Err(SchemaError::no_variant("Q {freq, q, gain} | Slope {freq, slope, gain}"))
    }

    fn write_fields(&self, w: Writer) -> (r: Writer) {
        match self {
            ShelfSteepness::Q { freq, q, gain } => Self::write_q(w, freq, q, gain),
            ShelfSteepness::Slope { freq, slope, gain } => Self::write_slope(w, freq, slope, gain),
        }
    }

    proof fn lemma_fields(v: ShelfSteepnessView) {
        let s = Self::slots(v);
        let m = present(s);
        match v {
            ShelfSteepnessView::Q { freq, q, gain } => {
                Self::lemma_q(freq, q, gain);
                Self::lemma_names_q();
                lemma_slot_names(s, Self::names_q());
                lemma_present(s);
                lemma_present_known(s, Self::names_q());
                assert(has_key(m, "freq"@)) by {
                    assert(s[0].0 == "freq"@ && field(m, s[0].0) == s[0].1);
                    lemma_has_field(m, "freq"@);
                }
                assert(has_key(m, "q"@)) by {
                    assert(s[1].0 == "q"@ && field(m, s[1].0) == s[1].1);
                    lemma_has_field(m, "q"@);
                }
                assert(has_key(m, "gain"@)) by {
                    assert(s[2].0 == "gain"@ && field(m, s[2].0) == s[2].1);
                    lemma_has_field(m, "gain"@);
                }
                assert(fits(m, Self::names_q(), Self::needed_q()));
            },
            ShelfSteepnessView::Slope { freq, slope, gain } => {
                Self::lemma_slope(freq, slope, gain);
                Self::lemma_names_slope();
                lemma_slot_names(s, Self::names_slope());
                lemma_present(s);
                lemma_present_known(s, Self::names_slope());
                assert(has_key(m, "freq"@)) by {
                    assert(s[0].0 == "freq"@ && field(m, s[0].0) == s[0].1);
                    lemma_has_field(m, "freq"@);
                }
                assert(has_key(m, "slope"@)) by {
                    assert(s[1].0 == "slope"@ && field(m, s[1].0) == s[1].1);
                    lemma_has_field(m, "slope"@);
                }
                assert(has_key(m, "gain"@)) by {
                    assert(s[2].0 == "gain"@ && field(m, s[2].0) == s[2].1);
                    lemma_has_field(m, "gain"@);
                }
                assert(fits(m, Self::names_slope(), Self::needed_slope()));
                assert(!fits(m, Self::names_q(), Self::needed_q())) by {
                    reveal_strlit("q");
                    reveal_strlit("freq");
                    reveal_strlit("slope");
                    reveal_strlit("gain");
                    assert("q"@.len() == 1);
                    assert("freq"@.len() == 4 && "freq"@[0] == 'f');
                    assert("slope"@.len() == 5);
                    assert("gain"@.len() == 4 && "gain"@[0] == 'g');
                    assert(Self::needed_q()[1] == "q"@);
                    if has_key(m, "q"@) {
                        assert(names_slot(s, "q"@));
                        let j = choose|j: int| 0 <= j < s.len() && (#[trigger] s[j]).0 == "q"@;
                        assert(Self::names_slope()[j] == s[j].0);
                    }
                }
            },
        }
    }

    proof fn lemma_fields_faithful(m: Entries) {
        Self::lemma_like_q(m);
        Self::lemma_like_slope(m);
    }
}

/// A peak, by its quality or by its bandwidth.
#[derive(Clone, Debug, PartialEq, Eq)]
pub enum PeakingWidth {
    Q { freq: Numeral, q: Numeral, gain: Numeral },
    Bandwidth { freq: Numeral, bandwidth: Numeral, gain: Numeral },
}

/// The mathematical value of a [`PeakingWidth`].
pub enum PeakingWidthView {
    Q { freq: NumeralView, q: NumeralView, gain: NumeralView },
    Bandwidth { freq: NumeralView, bandwidth: NumeralView, gain: NumeralView },
}

impl DeepView for PeakingWidth {
    type V = PeakingWidthView;

    open spec fn deep_view(&self) -> PeakingWidthView {
        match self {
            PeakingWidth::Q { freq, q, gain } => PeakingWidthView::Q {
                freq: freq.deep_view(),
                q: q.deep_view(),
                gain: gain.deep_view(),
            },
            PeakingWidth::Bandwidth { freq, bandwidth, gain } => PeakingWidthView::Bandwidth {
                freq: freq.deep_view(),
                bandwidth: bandwidth.deep_view(),
                gain: gain.deep_view(),
            },
        }
    }
}

impl PeakingWidth {
    /// The keys that the variant `Q` declares.
    pub open spec fn names_q() -> Seq<Seq<char>> {
        seq!["freq"@, "q"@, "gain"@]
    }

    /// The keys that the variant `Q` declares.
    pub fn field_names_q() -> (r: Vec<&'static str>)
        ensures
            texts(r@) == Self::names_q(),
    {
        let r = vec!["freq", "q", "gain"];
        proof {
            assert(texts(r@) =~= Self::names_q());
        }
        r
    }

    /// The keys that the variant `Q` cannot do without.
    pub open spec fn needed_q() -> Seq<Seq<char>> {
        seq!["freq"@, "q"@, "gain"@]
    }

    /// The keys that the variant `Q` cannot do without.
    pub fn needed_names_q() -> (r: Vec<&'static str>)
        ensures
            texts(r@) == Self::needed_q(),
    {
        let r = vec!["freq", "q", "gain"];
        proof {
            assert(texts(r@) =~= Self::needed_q());
        }
        r
    }

    /// The keys of the variant `Q` are distinct, and none is the key of a discriminant.
    pub proof fn lemma_names_q()
        ensures
            Self::names_q().no_duplicates(),
            !Self::names_q().contains(tag_key()),
    {
        reveal_strlit("type");
        reveal_strlit("freq");
        reveal_strlit("q");
        reveal_strlit("gain");
        assert("type"@.len() == 4 && "type"@[0] == 't');
        assert("freq"@.len() == 4 && "freq"@[0] == 'f');
        assert("q"@.len() == 1);
        assert("gain"@.len() == 4 && "gain"@[0] == 'g');
    }

    /// What the variant `Q` writes: one slot for each field.
    pub open spec fn slots_q(freq: NumeralView, q: NumeralView, gain: NumeralView) -> Seq<Slot> {
        seq![
            slot::<Numeral>("freq"@, freq),
            slot::<Numeral>("q"@, q),
            slot::<Numeral>("gain"@, gain),
        ]
    }

    /// What entries stand for, read as the variant `Q`.
    pub open spec fn decode_q(m: Entries) -> Result<PeakingWidthView, Fault> {
        let freq = required::<Numeral>(m, "freq"@);
        let q = required::<Numeral>(m, "q"@);
        let gain = required::<Numeral>(m, "gain"@);
        if let Some(e) = unknown_field(m, Self::names_q()) {
            Err(e)
        } else if freq is Err {
            Err(freq->Err_0)
        } else if q is Err {
            Err(q->Err_0)
        } else if gain is Err {
            Err(gain->Err_0)
        } else {
            Ok(PeakingWidthView::Q { freq: freq->Ok_0, q: q->Ok_0, gain: gain->Ok_0 })
        }
    }

    /// Reads the variant `Q`.
    pub fn read_q(f: &Fields) -> (r: Result<PeakingWidth, SchemaError>)
        ensures
            r matches Ok(x) ==> Self::decode_q(f@) == Ok::<PeakingWidthView, Fault>(x.deep_view()),
            r matches Err(e) ==> Self::decode_q(f@) == Err::<PeakingWidthView, Fault>(e.deep_view()),
    {
        let known = Self::field_names_q();
        f.deny_unknown(&known)?;
        let freq = f.required::<Numeral>("freq")?;
        let q = f.required::<Numeral>("q")?;
        let gain = f.required::<Numeral>("gain")?;
        Ok(PeakingWidth::Q { freq, q, gain })
    }

    /// Writes the fields of the variant `Q` after what `w` holds.
    pub fn write_q(w: Writer, freq: &Numeral, q: &Numeral, gain: &Numeral) -> (r: Writer)
        ensures
            r.slots() == w.slots() + Self::slots_q(freq.deep_view(), q.deep_view(), gain.deep_view()),
    {
        let ghost before = w.slots();
        let w = w.put::<Numeral>("freq", freq);
        let w = w.put::<Numeral>("q", q);
        let w = w.put::<Numeral>("gain", gain);
        proof {
            assert(w.slots() =~= before + Self::slots_q(freq.deep_view(), q.deep_view(), gain.deep_view()));
        }
        w
    }

    /// Reading what the variant `Q` wrote gives the fields back.
    pub proof fn lemma_q(freq: NumeralView, q: NumeralView, gain: NumeralView)
        ensures
            distinct_names(Self::slots_q(freq, q, gain)),
            !names_slot(Self::slots_q(freq, q, gain), tag_key()),
            Self::decode_q(present(Self::slots_q(freq, q, gain))) == Ok::<PeakingWidthView, Fault>(
                PeakingWidthView::Q { freq: freq, q: q, gain: gain },
            ),
    {
        Self::lemma_names_q();
        let s = Self::slots_q(freq, q, gain);
        lemma_slot_names(s, Self::names_q());
        lemma_present_known(s, Self::names_q());
        lemma_required::<Numeral>(s, 0, "freq"@, freq);
        lemma_required::<Numeral>(s, 1, "q"@, q);
        lemma_required::<Numeral>(s, 2, "gain"@, gain);
    }

    /// What the variant `Q` writes is like any entries that its fields were read from.
    pub proof fn lemma_like_q(m: Entries)
        requires
            distinct_keys(m),
        ensures
            Self::decode_q(m) matches Ok(PeakingWidthView::Q { freq, q, gain }) ==> alike_entries(
                m,
                present(Self::slots_q(freq, q, gain)),
            ),
    {
        if let Ok(PeakingWidthView::Q { freq, q, gain }) = Self::decode_q(m) {
            Self::lemma_names_q();
            lemma_unknown_field(m, Self::names_q());
            let s = lemma_matched_none(m);
            let s = lemma_matched_required::<Numeral>(m, s, "freq"@, freq);
            let s = lemma_matched_required::<Numeral>(m, s, "q"@, q);
            let s = lemma_matched_required::<Numeral>(m, s, "gain"@, gain);
            assert(s =~= Self::slots_q(freq, q, gain));
            lemma_slot_names(s, Self::names_q());
            lemma_alike_slots(m, s, Self::names_q());
        }
    }

    /// The keys that the variant `Bandwidth` declares.
    pub open spec fn names_bandwidth() -> Seq<Seq<char>> {
        seq!["freq"@, "bandwidth"@, "gain"@]
    }

    /// The keys that the variant `Bandwidth` declares.
    pub fn field_names_bandwidth() -> (r: Vec<&'static str>)
        ensures
            texts(r@) == Self::names_bandwidth(),
    {
        let r = vec!["freq", "bandwidth", "gain"];
        proof {
            assert(texts(r@) =~= Self::names_bandwidth());
        }
        r
    }

    /// The keys that the variant `Bandwidth` cannot do without.
    pub open spec fn needed_bandwidth() -> Seq<Seq<char>> {
        seq!["freq"@, "bandwidth"@, "gain"@]
    }

    /// The keys that the variant `Bandwidth` cannot do without.
    pub fn needed_names_bandwidth() -> (r: Vec<&'static str>)
        ensures
            texts(r@) == Self::needed_bandwidth(),
    {
        let r = vec!["freq", "bandwidth", "gain"];
        proof {
            assert(texts(r@) =~= Self::needed_bandwidth());
        }
        r
    }

    /// The keys of the variant `Bandwidth` are distinct, and none is the key of a discriminant.
    pub proof fn lemma_names_bandwidth()
        ensures
            Self::names_bandwidth().no_duplicates(),
            !Self::names_bandwidth().contains(tag_key()),
    {
        reveal_strlit("type");
        reveal_strlit("freq");
        reveal_strlit("bandwidth");
        reveal_strlit("gain");
        assert("type"@.len() == 4 && "type"@[0] == 't');
        assert("freq"@.len() == 4 && "freq"@[0] == 'f');
        assert("bandwidth"@.len() == 9);
        assert("gain"@.len() == 4 && "gain"@[0] == 'g');
    }

    /// What the variant `Bandwidth` writes: one slot for each field.
    pub open spec fn slots_bandwidth(freq: NumeralView, bandwidth: NumeralView, gain: NumeralView) -> Seq<Slot> {
        seq![
            slot::<Numeral>("freq"@, freq),
            slot::<Numeral>("bandwidth"@, bandwidth),
            slot::<Numeral>("gain"@, gain),
        ]
    }

    /// What entries stand for, read as the variant `Bandwidth`.
    pub open spec fn decode_bandwidth(m: Entries) -> Result<PeakingWidthView, Fault> {
        let freq = required::<Numeral>(m, "freq"@);
        let bandwidth = required::<Numeral>(m, "bandwidth"@);
        let gain = required::<Numeral>(m, "gain"@);
        if let Some(e) = unknown_field(m, Self::names_bandwidth()) {
            Err(e)
        } else if freq is Err {
            Err(freq->Err_0)
        } else if bandwidth is Err {
            Err(bandwidth->Err_0)
        } else if gain is Err {
            Err(gain->Err_0)
        } else {
            Ok(
                PeakingWidthView::Bandwidth {
                    freq: freq->Ok_0,
                    bandwidth: bandwidth->Ok_0,
                    gain: gain->Ok_0,
                },
            )
        }
    }

    /// Reads the variant `Bandwidth`.
    pub fn read_bandwidth(f: &Fields) -> (r: Result<PeakingWidth, SchemaError>)
        ensures
            r matches Ok(x) ==> Self::decode_bandwidth(f@) == Ok::<PeakingWidthView, Fault>(x.deep_view()),
            r matches Err(e) ==> Self::decode_bandwidth(f@) == Err::<PeakingWidthView, Fault>(e.deep_view()),
    {
        let known = Self::field_names_bandwidth();
        f.deny_unknown(&known)?;
        let freq = f.required::<Numeral>("freq")?;
        let bandwidth = f.required::<Numeral>("bandwidth")?;
        let gain = f.required::<Numeral>("gain")?;
        Ok(PeakingWidth::Bandwidth { freq, bandwidth, gain })
    }

    /// Writes the fields of the variant `Bandwidth` after what `w` holds.
    pub fn write_bandwidth(w: Writer, freq: &Numeral, bandwidth: &Numeral, gain: &Numeral) -> (r: Writer)
        ensures
            r.slots() == w.slots() + Self::slots_bandwidth(freq.deep_view(), bandwidth.deep_view(), gain.deep_view()),
    {
        let ghost before = w.slots();
        let w = w.put::<Numeral>("freq", freq);
        let w = w.put::<Numeral>("bandwidth", bandwidth);
        let w = w.put::<Numeral>("gain", gain);
        proof {
            assert(w.slots() =~= before + Self::slots_bandwidth(freq.deep_view(), bandwidth.deep_view(), gain.deep_view()));
        }
        w
    }

    /// Reading what the variant `Bandwidth` wrote gives the fields back.
    pub proof fn lemma_bandwidth(freq: NumeralView, bandwidth: NumeralView, gain: NumeralView)
        ensures
            distinct_names(Self::slots_bandwidth(freq, bandwidth, gain)),
            !names_slot(Self::slots_bandwidth(freq, bandwidth, gain), tag_key()),
            Self::decode_bandwidth(present(Self::slots_bandwidth(freq, bandwidth, gain))) == Ok::<PeakingWidthView, Fault>(
                PeakingWidthView::Bandwidth { freq: freq, bandwidth: bandwidth, gain: gain },
            ),
    {
        Self::lemma_names_bandwidth();
        let s = Self::slots_bandwidth(freq, bandwidth, gain);
        lemma_slot_names(s, Self::names_bandwidth());
        lemma_present_known(s, Self::names_bandwidth());
        lemma_required::<Numeral>(s, 0, "freq"@, freq);
        lemma_required::<Numeral>(s, 1, "bandwidth"@, bandwidth);
        lemma_required::<Numeral>(s, 2, "gain"@, gain);
    }

    /// What the variant `Bandwidth` writes is like any entries that its fields were read from.
    pub proof fn lemma_like_bandwidth(m: Entries)
        requires
            distinct_keys(m),
        ensures
            Self::decode_bandwidth(m) matches Ok(PeakingWidthView::Bandwidth { freq, bandwidth, gain }) ==> alike_entries(
                m,
                present(Self::slots_bandwidth(freq, bandwidth, gain)),
            ),
    {
        if let Ok(PeakingWidthView::Bandwidth { freq, bandwidth, gain }) = Self::decode_bandwidth(m) {
            Self::lemma_names_bandwidth();
            lemma_unknown_field(m, Self::names_bandwidth());
            let s = lemma_matched_none(m);
            let s = lemma_matched_required::<Numeral>(m, s, "freq"@, freq);
            let s = lemma_matched_required::<Numeral>(m, s, "bandwidth"@, bandwidth);
            let s = lemma_matched_required::<Numeral>(m, s, "gain"@, gain);
            assert(s =~= Self::slots_bandwidth(freq, bandwidth, gain));
            lemma_slot_names(s, Self::names_bandwidth());
            lemma_alike_slots(m, s, Self::names_bandwidth());
        }
    }

    /// The shapes that are tried, in this order, each with its keys; a `?`
    /// marks a key that may be left out.
    pub open spec fn shapes() -> Seq<char> {
        "Q {freq, q, gain} | Bandwidth {freq, bandwidth, gain}"@
    }
}

impl Record for PeakingWidth {
    open spec fn slots(v: PeakingWidthView) -> Seq<Slot> {
        match v {
            PeakingWidthView::Q { freq, q, gain } => Self::slots_q(freq, q, gain),
            PeakingWidthView::Bandwidth { freq, bandwidth, gain } => Self::slots_bandwidth(freq, bandwidth, gain),
        }
    }

    open spec fn decode_fields(m: Entries) -> Result<PeakingWidthView, Fault> {
        if fits(m, Self::names_q(), Self::needed_q()) {
            Self::decode_q(m)
        } else if fits(m, Self::names_bandwidth(), Self::needed_bandwidth()) {
            Self::decode_bandwidth(m)
        } else {
            Err(Fault::no_variant(Self::shapes()))
        }
    }

    fn read_fields(f: &Fields) -> (r: Result<PeakingWidth, SchemaError>) {
        if f.fits(&Self::field_names_q(), &Self::needed_names_q()) {
            return Self::read_q(f);
        }
        if f.fits(&Self::field_names_bandwidth(), &Self::needed_names_bandwidth()) {
            return Self::read_bandwidth(f);
        }
        Err(SchemaError::no_variant("Q {freq, q, gain} | Bandwidth {freq, bandwidth, gain}"))
    }

    fn write_fields(&self, w: Writer) -> (r: Writer) {
        match self {
            PeakingWidth::Q { freq, q, gain } => Self::write_q(w, freq, q, gain),
            PeakingWidth::Bandwidth { freq, bandwidth, gain } => Self::write_bandwidth(w, freq, bandwidth, gain),
        }
    }

    proof fn lemma_fields(v: PeakingWidthView) {
        let s = Self::slots(v);
        let m = present(s);
        match v {
            PeakingWidthView::Q { freq, q, gain } => {
                Self::lemma_q(freq, q, gain);
                Self::lemma_names_q();
                lemma_slot_names(s, Self::names_q());
                lemma_present(s);
                lemma_present_known(s, Self::names_q());
                assert(has_key(m, "freq"@)) by {
                    assert(s[0].0 == "freq"@ && field(m, s[0].0) == s[0].1);
                    lemma_has_field(m, "freq"@);
                }
                assert(has_key(m, "q"@)) by {
                    assert(s[1].0 == "q"@ && field(m, s[1].0) == s[1].1);
                    lemma_has_field(m, "q"@);
                }
                assert(has_key(m, "gain"@)) by {
                    assert(s[2].0 == "gain"@ && field(m, s[2].0) == s[2].1);
                    lemma_has_field(m, "gain"@);
                }
                assert(fits(m, Self::names_q(), Self::needed_q()));
            },
            PeakingWidthView::Bandwidth { freq, bandwidth, gain } => {
                Self::lemma_bandwidth(freq, bandwidth, gain);
                Self::lemma_names_bandwidth();
                lemma_slot_names(s, Self::names_bandwidth());
                lemma_present(s);
                lemma_present_known(s, Self::names_bandwidth());
                assert(has_key(m, "freq"@)) by {
                    assert(s[0].0 == "freq"@ && field(m, s[0].0) == s[0].1);
                    lemma_has_field(m, "freq"@);
                }
                assert(has_key(m, "bandwidth"@)) by {
                    assert(s[1].0 == "bandwidth"@ && field(m, s[1].0) == s[1].1);
                    lemma_has_field(m, "bandwidth"@);
                }
                assert(has_key(m, "gain"@)) by {
                    assert(s[2].0 == "gain"@ && field(m, s[2].0) == s[2].1);
                    lemma_has_field(m, "gain"@);
                }
                assert(fits(m, Self::names_bandwidth(), Self::needed_bandwidth()));
                assert(!fits(m, Self::names_q(), Self::needed_q())) by {
                    reveal_strlit("q");
                    reveal_strlit("freq");
                    reveal_strlit("bandwidth");
                    reveal_strlit("gain");
                    assert("q"@.len() == 1);
                    assert("freq"@.len() == 4 && "freq"@[0] == 'f');
                    assert("bandwidth"@.len() == 9);
                    assert("gain"@.len() == 4 && "gain"@[0] == 'g');
                    assert(Self::needed_q()[1] == "q"@);
                    if has_key(m, "q"@) {
                        assert(names_slot(s, "q"@));
                        let j = choose|j: int| 0 <= j < s.len() && (#[trigger] s[j]).0 == "q"@;
                        assert(Self::names_bandwidth()[j] == s[j].0);
                    }
                }
            },
        }
    }

    proof fn lemma_fields_faithful(m: Entries) {
        Self::lemma_like_q(m);
        Self::lemma_like_bandwidth(m);
    }
}

/// A notch, an allpass or a bandpass, by its quality or by its bandwidth.
#[derive(Clone, Debug, PartialEq, Eq)]
pub enum NotchWidth {
    Q { freq: Numeral, q: Numeral },
    Bandwidth { freq: Numeral, bandwidth: Numeral },
}

/// The mathematical value of a [`NotchWidth`].
pub enum NotchWidthView {
    Q { freq: NumeralView, q: NumeralView },
    Bandwidth { freq: NumeralView, bandwidth: NumeralView },
}

impl DeepView for NotchWidth {
    type V = NotchWidthView;

    open spec fn deep_view(&self) -> NotchWidthView {
        match self {
            NotchWidth::Q { freq, q } => NotchWidthView::Q {
                freq: freq.deep_view(),
                q: q.deep_view(),
            },
            NotchWidth::Bandwidth { freq, bandwidth } => NotchWidthView::Bandwidth {
                freq: freq.deep_view(),
                bandwidth: bandwidth.deep_view(),
            },
        }
    }
}

impl NotchWidth {
    /// The keys that the variant `Q` declares.
    pub open spec fn names_q() -> Seq<Seq<char>> {
        seq!["freq"@, "q"@]
    }

    /// The keys that the variant `Q` declares.
    pub fn field_names_q() -> (r: Vec<&'static str>)
        ensures
            texts(r@) == Self::names_q(),
    {
        let r = vec!["freq", "q"];
        proof {
            assert(texts(r@) =~= Self::names_q());
        }
        r
    }

    /// The keys that the variant `Q` cannot do without.
    pub open spec fn needed_q() -> Seq<Seq<char>> {
        seq!["freq"@, "q"@]
    }

    /// The keys that the variant `Q` cannot do without.
    pub fn needed_names_q() -> (r: Vec<&'static str>)
        ensures
            texts(r@) == Self::needed_q(),
    {
        let r = vec!["freq", "q"];
        proof {
            assert(texts(r@) =~= Self::needed_q());
        }
        r
    }

    /// The keys of the variant `Q` are distinct, and none is the key of a discriminant.
    pub proof fn lemma_names_q()
        ensures
            Self::names_q().no_duplicates(),
            !Self::names_q().contains(tag_key()),
    {
        reveal_strlit("type");
        reveal_strlit("freq");
        reveal_strlit("q");
        assert("type"@.len() == 4 && "type"@[0] == 't');
        assert("freq"@.len() == 4 && "freq"@[0] == 'f');
        assert("q"@.len() == 1);
    }

    /// What the variant `Q` writes: one slot for each field.
    pub open spec fn slots_q(freq: NumeralView, q: NumeralView) -> Seq<Slot> {
        seq![
            slot::<Numeral>("freq"@, freq),
            slot::<Numeral>("q"@, q),
        ]
    }

    /// What entries stand for, read as the variant `Q`.
    pub open spec fn decode_q(m: Entries) -> Result<NotchWidthView, Fault> {
        let freq = required::<Numeral>(m, "freq"@);
        let q = required::<Numeral>(m, "q"@);
        if let Some(e) = unknown_field(m, Self::names_q()) {
            Err(e)
        } else if freq is Err {
            Err(freq->Err_0)
        } else if q is Err {
            Err(q->Err_0)
        } else {
            Ok(NotchWidthView::Q { freq: freq->Ok_0, q: q->Ok_0 })
        }
    }

    /// Reads the variant `Q`.
    pub fn read_q(f: &Fields) -> (r: Result<NotchWidth, SchemaError>)
        ensures
            r matches Ok(x) ==> Self::decode_q(f@) == Ok::<NotchWidthView, Fault>(x.deep_view()),
            r matches Err(e) ==> Self::decode_q(f@) == Err::<NotchWidthView, Fault>(e.deep_view()),
    {
        let known = Self::field_names_q();
        f.deny_unknown(&known)?;
        let freq = f.required::<Numeral>("freq")?;
        let q = f.required::<Numeral>("q")?;
        Ok(NotchWidth::Q { freq, q })
    }

    /// Writes the fields of the variant `Q` after what `w` holds.
    pub fn write_q(w: Writer, freq: &Numeral, q: &Numeral) -> (r: Writer)
        ensures
            r.slots() == w.slots() + Self::slots_q(freq.deep_view(), q.deep_view()),
    {
        let ghost before = w.slots();
        let w = w.put::<Numeral>("freq", freq);
        let w = w.put::<Numeral>("q", q);
        proof {
            assert(w.slots() =~= before + Self::slots_q(freq.deep_view(), q.deep_view()));
        }
        w
    }

    /// Reading what the variant `Q` wrote gives the fields back.
    pub proof fn lemma_q(freq: NumeralView, q: NumeralView)
        ensures
            distinct_names(Self::slots_q(freq, q)),
            !names_slot(Self::slots_q(freq, q), tag_key()),
            Self::decode_q(present(Self::slots_q(freq, q))) == Ok::<NotchWidthView, Fault>(
                NotchWidthView::Q { freq: freq, q: q },
            ),
    {
        Self::lemma_names_q();
        let s = Self::slots_q(freq, q);
        lemma_slot_names(s, Self::names_q());
        lemma_present_known(s, Self::names_q());
        lemma_required::<Numeral>(s, 0, "freq"@, freq);
        lemma_required::<Numeral>(s, 1, "q"@, q);
    }

    /// What the variant `Q` writes is like any entries that its fields were read from.
    pub proof fn lemma_like_q(m: Entries)
        requires
            distinct_keys(m),
        ensures
            Self::decode_q(m) matches Ok(NotchWidthView::Q { freq, q }) ==> alike_entries(
                m,
                present(Self::slots_q(freq, q)),
            ),
    {
        if let Ok(NotchWidthView::Q { freq, q }) = Self::decode_q(m) {
            Self::lemma_names_q();
            lemma_unknown_field(m, Self::names_q());
            let s = lemma_matched_none(m);
            let s = lemma_matched_required::<Numeral>(m, s, "freq"@, freq);
            let s = lemma_matched_required::<Numeral>(m, s, "q"@, q);
            assert(s =~= Self::slots_q(freq, q));
            lemma_slot_names(s, Self::names_q());
            lemma_alike_slots(m, s, Self::names_q());
        }
    }

    /// The keys that the variant `Bandwidth` declares.
    pub open spec fn names_bandwidth() -> Seq<Seq<char>> {
        seq!["freq"@, "bandwidth"@]
    }

    /// The keys that the variant `Bandwidth` declares.
    pub fn field_names_bandwidth() -> (r: Vec<&'static str>)
        ensures
            texts(r@) == Self::names_bandwidth(),
    {
        let r = vec!["freq", "bandwidth"];
        proof {
            assert(texts(r@) =~= Self::names_bandwidth());
        }
        r
    }

    /// The keys that the variant `Bandwidth` cannot do without.
    pub open spec fn needed_bandwidth() -> Seq<Seq<char>> {
        seq!["freq"@, "bandwidth"@]
    }

    /// The keys that the variant `Bandwidth` cannot do without.
    pub fn needed_names_bandwidth() -> (r: Vec<&'static str>)
        ensures
            texts(r@) == Self::needed_bandwidth(),
    {
        let r = vec!["freq", "bandwidth"];
        proof {
            assert(texts(r@) =~= Self::needed_bandwidth());
        }
        r
    }

    /// The keys of the variant `Bandwidth` are distinct, and none is the key of a discriminant.
    pub proof fn lemma_names_bandwidth()
        ensures
            Self::names_bandwidth().no_duplicates(),
            !Self::names_bandwidth().contains(tag_key()),
    {
        reveal_strlit("type");
        reveal_strlit("freq");
        reveal_strlit("bandwidth");
        assert("type"@.len() == 4 && "type"@[0] == 't');
        assert("freq"@.len() == 4 && "freq"@[0] == 'f');
        assert("bandwidth"@.len() == 9);
    }

    /// What the variant `Bandwidth` writes: one slot for each field.
    pub open spec fn slots_bandwidth(freq: NumeralView, bandwidth: NumeralView) -> Seq<Slot> {
        seq![
            slot::<Numeral>("freq"@, freq),
            slot::<Numeral>("bandwidth"@, bandwidth),
        ]
    }

    /// What entries stand for, read as the variant `Bandwidth`.
    pub open spec fn decode_bandwidth(m: Entries) -> Result<NotchWidthView, Fault> {
        let freq = required::<Numeral>(m, "freq"@);
        let bandwidth = required::<Numeral>(m, "bandwidth"@);
        if let Some(e) = unknown_field(m, Self::names_bandwidth()) {
            Err(e)
        } else if freq is Err {
            Err(freq->Err_0)
        } else if bandwidth is Err {
            Err(bandwidth->Err_0)
        } else {
            Ok(NotchWidthView::Bandwidth { freq: freq->Ok_0, bandwidth: bandwidth->Ok_0 })
        }
    }

    /// Reads the variant `Bandwidth`.
    pub fn read_bandwidth(f: &Fields) -> (r: Result<NotchWidth, SchemaError>)
        ensures
            r matches Ok(x) ==> Self::decode_bandwidth(f@) == Ok::<NotchWidthView, Fault>(x.deep_view()),
            r matches Err(e) ==> Self::decode_bandwidth(f@) == Err::<NotchWidthView, Fault>(e.deep_view()),
    {
        let known = Self::field_names_bandwidth();
        f.deny_unknown(&known)?;
        let freq = f.required::<Numeral>("freq")?;
        let bandwidth = f.required::<Numeral>("bandwidth")?;
        Ok(NotchWidth::Bandwidth { freq, bandwidth })
    }

    /// Writes the fields of the variant `Bandwidth` after what `w` holds.
    pub fn write_bandwidth(w: Writer, freq: &Numeral, bandwidth: &Numeral) -> (r: Writer)
        ensures
            r.slots() == w.slots() + Self::slots_bandwidth(freq.deep_view(), bandwidth.deep_view()),
    {
        let ghost before = w.slots();
        let w = w.put::<Numeral>("freq", freq);
        let w = w.put::<Numeral>("bandwidth", bandwidth);
        proof {
            assert(w.slots() =~= before + Self::slots_bandwidth(freq.deep_view(), bandwidth.deep_view()));
        }
        w
    }

    /// Reading what the variant `Bandwidth` wrote gives the fields back.
    pub proof fn lemma_bandwidth(freq: NumeralView, bandwidth: NumeralView)
        ensures
            distinct_names(Self::slots_bandwidth(freq, bandwidth)),
            !names_slot(Self::slots_bandwidth(freq, bandwidth), tag_key()),
            Self::decode_bandwidth(present(Self::slots_bandwidth(freq, bandwidth))) == Ok::<NotchWidthView, Fault>(
                NotchWidthView::Bandwidth { freq: freq, bandwidth: bandwidth },
            ),
    {
        Self::lemma_names_bandwidth();
        let s = Self::slots_bandwidth(freq, bandwidth);
        lemma_slot_names(s, Self::names_bandwidth());
        lemma_present_known(s, Self::names_bandwidth());
        lemma_required::<Numeral>(s, 0, "freq"@, freq);
        lemma_required::<Numeral>(s, 1, "bandwidth"@, bandwidth);
    }

    /// What the variant `Bandwidth` writes is like any entries that its fields were read from.
    pub proof fn lemma_like_bandwidth(m: Entries)
        requires
            distinct_keys(m),
        ensures
            Self::decode_bandwidth(m) matches Ok(NotchWidthView::Bandwidth { freq, bandwidth }) ==> alike_entries(
                m,
                present(Self::slots_bandwidth(freq, bandwidth)),
            ),
    {
        if let Ok(NotchWidthView::Bandwidth { freq, bandwidth }) = Self::decode_bandwidth(m) {
            Self::lemma_names_bandwidth();
            lemma_unknown_field(m, Self::names_bandwidth());
            let s = lemma_matched_none(m);
            let s = lemma_matched_required::<Numeral>(m, s, "freq"@, freq);
            let s = lemma_matched_required::<Numeral>(m, s, "bandwidth"@, bandwidth);
            assert(s =~= Self::slots_bandwidth(freq, bandwidth));
            lemma_slot_names(s, Self::names_bandwidth());
            lemma_alike_slots(m, s, Self::names_bandwidth());
        }
    }

    /// The shapes that are tried, in this order, each with its keys; a `?`
    /// marks a key that may be left out.
    pub open spec fn shapes() -> Seq<char> {
        "Q {freq, q} | Bandwidth {freq, bandwidth}"@
    }
}

impl Record for NotchWidth {
    open spec fn slots(v: NotchWidthView) -> Seq<Slot> {
        match v {
            NotchWidthView::Q { freq, q } => Self::slots_q(freq, q),
            NotchWidthView::Bandwidth { freq, bandwidth } => Self::slots_bandwidth(freq, bandwidth),
        }
    }

    open spec fn decode_fields(m: Entries) -> Result<NotchWidthView, Fault> {
        if fits(m, Self::names_q(), Self::needed_q()) {
            Self::decode_q(m)
        } else if fits(m, Self::names_bandwidth(), Self::needed_bandwidth()) {
            Self::decode_bandwidth(m)
        } else {
            Err(Fault::no_variant(Self::shapes()))
        }
    }

    fn read_fields(f: &Fields) -> (r: Result<NotchWidth, SchemaError>) {
        if f.fits(&Self::field_names_q(), &Self::needed_names_q()) {
            return Self::read_q(f);
        }
        if f.fits(&Self::field_names_bandwidth(), &Self::needed_names_bandwidth()) {
            return Self::read_bandwidth(f);
        }
        Err(SchemaError::no_variant("Q {freq, q} | Bandwidth {freq, bandwidth}"))
    }

    fn write_fields(&self, w: Writer) -> (r: Writer) {
        match self {
            NotchWidth::Q { freq, q } => Self::write_q(w, freq, q),
            NotchWidth::Bandwidth { freq, bandwidth } => Self::write_bandwidth(w, freq, bandwidth),
        }
    }

    proof fn lemma_fields(v: NotchWidthView) {
        let s = Self::slots(v);
        let m = present(s);
        match v {
            NotchWidthView::Q { freq, q } => {
                Self::lemma_q(freq, q);
                Self::lemma_names_q();
                lemma_slot_names(s, Self::names_q());
                lemma_present(s);
                lemma_present_known(s, Self::names_q());
                assert(has_key(m, "freq"@)) by {
                    assert(s[0].0 == "freq"@ && field(m, s[0].0) == s[0].1);
                    lemma_has_field(m, "freq"@);
                }
                assert(has_key(m, "q"@)) by {
                    assert(s[1].0 == "q"@ && field(m, s[1].0) == s[1].1);
                    lemma_has_field(m, "q"@);
                }
                assert(fits(m, Self::names_q(), Self::needed_q()));
            },
            NotchWidthView::Bandwidth { freq, bandwidth } => {
                Self::lemma_bandwidth(freq, bandwidth);
                Self::lemma_names_bandwidth();
                lemma_slot_names(s, Self::names_bandwidth());
                lemma_present(s);
                lemma_present_known(s, Self::names_bandwidth());
                assert(has_key(m, "freq"@)) by {
                    assert(s[0].0 == "freq"@ && field(m, s[0].0) == s[0].1);
                    lemma_has_field(m, "freq"@);
                }
                assert(has_key(m, "bandwidth"@)) by {
                    assert(s[1].0 == "bandwidth"@ && field(m, s[1].0) == s[1].1);
                    lemma_has_field(m, "bandwidth"@);
                }
                assert(fits(m, Self::names_bandwidth(), Self::needed_bandwidth()));
                assert(!fits(m, Self::names_q(), Self::needed_q())) by {
                    reveal_strlit("q");
                    reveal_strlit("freq");
                    reveal_strlit("bandwidth");
                    assert("q"@.len() == 1);
                    assert("freq"@.len() == 4);
                    assert("bandwidth"@.len() == 9);
                    assert(Self::needed_q()[1] == "q"@);
                    if has_key(m, "q"@) {
                        assert(names_slot(s, "q"@));
                        let j = choose|j: int| 0 <= j < s.len() && (#[trigger] s[j]).0 == "q"@;
                        assert(Self::names_bandwidth()[j] == s[j].0);
                    }
                }
            },
        }
    }

    proof fn lemma_fields_faithful(m: Entries) {
        Self::lemma_like_q(m);
        Self::lemma_like_bandwidth(m);
    }
}

/// A notch with separate frequencies for its pole and its zero.
#[derive(Clone, Debug, PartialEq, Eq)]
pub struct GeneralNotchParams {
    pub freq_p: Numeral,
    pub freq_z: Numeral,
    pub q_p: Numeral,
    pub normalize_at_dc: Option<bool>,
}

/// The mathematical value of a [`GeneralNotchParams`].
pub struct GeneralNotchParamsView {
    pub freq_p: NumeralView,
    pub freq_z: NumeralView,
    pub q_p: NumeralView,
    pub normalize_at_dc: Option<bool>,
}

impl DeepView for GeneralNotchParams {
    type V = GeneralNotchParamsView;

    open spec fn deep_view(&self) -> GeneralNotchParamsView {
        GeneralNotchParamsView {
            freq_p: self.freq_p.deep_view(),
            freq_z: self.freq_z.deep_view(),
            q_p: self.q_p.deep_view(),
            normalize_at_dc: self.normalize_at_dc.deep_view(),
        }
    }
}

impl GeneralNotchParams {
    /// The keys that the record declares.
    pub open spec fn names() -> Seq<Seq<char>> {
        seq!["freq_p"@, "freq_z"@, "q_p"@, "normalize_at_dc"@]
    }

    /// The keys of the record are distinct, and none is the key of a discriminant.
    pub proof fn lemma_names()
        ensures
            Self::names().no_duplicates(),
            !Self::names().contains(tag_key()),
    {
        reveal_strlit("type");
        reveal_strlit("freq_p");
        reveal_strlit("freq_z");
        reveal_strlit("q_p");
        reveal_strlit("normalize_at_dc");
        assert("type"@.len() == 4);
        assert("freq_p"@.len() == 6 && "freq_p"@[5] == 'p');
        assert("freq_z"@.len() == 6 && "freq_z"@[5] == 'z');
        assert("q_p"@.len() == 3);
        assert("normalize_at_dc"@.len() == 15);
    }
}

impl Record for GeneralNotchParams {
    open spec fn slots(v: GeneralNotchParamsView) -> Seq<Slot> {
        seq![
            slot::<Numeral>("freq_p"@, v.freq_p),
            slot::<Numeral>("freq_z"@, v.freq_z),
            slot::<Numeral>("q_p"@, v.q_p),
            slot_opt::<bool>("normalize_at_dc"@, v.normalize_at_dc),
        ]
    }

    open spec fn decode_fields(m: Entries) -> Result<GeneralNotchParamsView, Fault> {
        let freq_p = required::<Numeral>(m, "freq_p"@);
        let freq_z = required::<Numeral>(m, "freq_z"@);
        let q_p = required::<Numeral>(m, "q_p"@);
        let normalize_at_dc = optional::<bool>(m, "normalize_at_dc"@);
        if let Some(e) = unknown_field(m, Self::names()) {
            Err(e)
        } else if freq_p is Err {
            Err(freq_p->Err_0)
        } else if freq_z is Err {
            Err(freq_z->Err_0)
        } else if q_p is Err {
            Err(q_p->Err_0)
        } else if normalize_at_dc is Err {
            Err(normalize_at_dc->Err_0)
        } else {
            Ok(
                GeneralNotchParamsView {
                    freq_p: freq_p->Ok_0,
                    freq_z: freq_z->Ok_0,
                    q_p: q_p->Ok_0,
                    normalize_at_dc: normalize_at_dc->Ok_0,
                },
            )
        }
    }

    fn read_fields(f: &Fields) -> (r: Result<GeneralNotchParams, SchemaError>) {
        let known = vec!["freq_p", "freq_z", "q_p", "normalize_at_dc"];
        proof {
            assert(texts(known@) =~= Self::names());
        }
        f.deny_unknown(&known)?;
        let freq_p = f.required::<Numeral>("freq_p")?;
        let freq_z = f.required::<Numeral>("freq_z")?;
        let q_p = f.required::<Numeral>("q_p")?;
        let normalize_at_dc = f.optional::<bool>("normalize_at_dc")?;
        Ok(GeneralNotchParams { freq_p, freq_z, q_p, normalize_at_dc })
    }

    fn write_fields(&self, w: Writer) -> (r: Writer) {
        let ghost before = w.slots();
        let w = w.put::<Numeral>("freq_p", &self.freq_p);
        let w = w.put::<Numeral>("freq_z", &self.freq_z);
        let w = w.put::<Numeral>("q_p", &self.q_p);
        let w = w.put_opt::<bool>("normalize_at_dc", &self.normalize_at_dc);
        proof {
            assert(w.slots() =~= before + Self::slots(self.deep_view()));
        }
        w
    }

    proof fn lemma_fields(v: GeneralNotchParamsView) {
        Self::lemma_names();
        let s = Self::slots(v);
        lemma_slot_names(s, Self::names());
        lemma_present_known(s, Self::names());
        lemma_required::<Numeral>(s, 0, "freq_p"@, v.freq_p);
        lemma_required::<Numeral>(s, 1, "freq_z"@, v.freq_z);
        lemma_required::<Numeral>(s, 2, "q_p"@, v.q_p);
        lemma_optional::<bool>(s, 3, "normalize_at_dc"@, v.normalize_at_dc);
    }

    proof fn lemma_fields_faithful(m: Entries) {
        if let Ok(v) = Self::decode_fields(m) {
            Self::lemma_names();
            lemma_unknown_field(m, Self::names());
            let s = lemma_matched_none(m);
            let s = lemma_matched_required::<Numeral>(m, s, "freq_p"@, v.freq_p);
            let s = lemma_matched_required::<Numeral>(m, s, "freq_z"@, v.freq_z);
            let s = lemma_matched_required::<Numeral>(m, s, "q_p"@, v.q_p);
            let s = lemma_matched_optional::<bool>(m, s, "normalize_at_dc"@, v.normalize_at_dc);
            assert(s =~= Self::slots(v));
            lemma_slot_names(s, Self::names());
            lemma_alike_slots(m, s, Self::names());
        }
    }
}

/// A second-order filter section, by its coefficients or by its shape.
#[derive(Clone, Debug, PartialEq, Eq)]
pub enum BiquadParameters {
    Free { a1: Numeral, a2: Numeral, b0: Numeral, b1: Numeral, b2: Numeral },
    Highpass { freq: Numeral, q: Numeral },
    Lowpass { freq: Numeral, q: Numeral },
    Peaking(PeakingWidth),
    Highshelf(ShelfSteepness),
    HighshelfFO { freq: Numeral, gain: Numeral },
    Lowshelf(ShelfSteepness),
    LowshelfFO { freq: Numeral, gain: Numeral },
    HighpassFO { freq: Numeral },
    LowpassFO { freq: Numeral },
    Allpass(NotchWidth),
    AllpassFO { freq: Numeral },
    Bandpass(NotchWidth),
    Notch(NotchWidth),
    GeneralNotch(GeneralNotchParams),
    LinkwitzTransform {
        freq_act: Numeral,
        q_act: Numeral,
        freq_target: Numeral,
        q_target: Numeral,
    },
}

/// The mathematical value of a [`BiquadParameters`].
pub enum BiquadParametersView {
    Free { a1: NumeralView, a2: NumeralView, b0: NumeralView, b1: NumeralView, b2: NumeralView },
    Highpass { freq: NumeralView, q: NumeralView },
    Lowpass { freq: NumeralView, q: NumeralView },
    Peaking(PeakingWidthView),
    Highshelf(ShelfSteepnessView),
    HighshelfFO { freq: NumeralView, gain: NumeralView },
    Lowshelf(ShelfSteepnessView),
    LowshelfFO { freq: NumeralView, gain: NumeralView },
    HighpassFO { freq: NumeralView },
    LowpassFO { freq: NumeralView },
    Allpass(NotchWidthView),
    AllpassFO { freq: NumeralView },
    Bandpass(NotchWidthView),
    Notch(NotchWidthView),
    GeneralNotch(GeneralNotchParamsView),
    LinkwitzTransform {
        freq_act: NumeralView,
        q_act: NumeralView,
        freq_target: NumeralView,
        q_target: NumeralView,
    },
}

/// The discriminants of [`BiquadParameters`].
#[derive(Clone, Copy, Debug, PartialEq, Eq)]
pub enum BiquadParametersKind {
    Free,
    Highpass,
    Lowpass,
    Peaking,
    Highshelf,
    HighshelfFO,
    Lowshelf,
    LowshelfFO,
    HighpassFO,
    LowpassFO,
    Allpass,
    AllpassFO,
    Bandpass,
    Notch,
    GeneralNotch,
    LinkwitzTransform,
}

impl Spelled for BiquadParametersKind {
    open spec fn name(self) -> Seq<char> {
        match self {
            BiquadParametersKind::Free => "Free"@,
            BiquadParametersKind::Highpass => "Highpass"@,
            BiquadParametersKind::Lowpass => "Lowpass"@,
            BiquadParametersKind::Peaking => "Peaking"@,
            BiquadParametersKind::Highshelf => "Highshelf"@,
            BiquadParametersKind::HighshelfFO => "HighshelfFO"@,
            BiquadParametersKind::Lowshelf => "Lowshelf"@,
            BiquadParametersKind::LowshelfFO => "LowshelfFO"@,
            BiquadParametersKind::HighpassFO => "HighpassFO"@,
            BiquadParametersKind::LowpassFO => "LowpassFO"@,
            BiquadParametersKind::Allpass => "Allpass"@,
            BiquadParametersKind::AllpassFO => "AllpassFO"@,
            BiquadParametersKind::Bandpass => "Bandpass"@,
            BiquadParametersKind::Notch => "Notch"@,
            BiquadParametersKind::GeneralNotch => "GeneralNotch"@,
            BiquadParametersKind::LinkwitzTransform => "LinkwitzTransform"@,
        }
    }

    open spec fn named(t: Seq<char>) -> Option<BiquadParametersKind> {
        if t == "Free"@ {
            Some(BiquadParametersKind::Free)
        } else if t == "Highpass"@ {
            Some(BiquadParametersKind::Highpass)
        } else if t == "Lowpass"@ {
            Some(BiquadParametersKind::Lowpass)
        } else if t == "Peaking"@ {
            Some(BiquadParametersKind::Peaking)
        } else if t == "Highshelf"@ {
            Some(BiquadParametersKind::Highshelf)
        } else if t == "HighshelfFO"@ {
            Some(BiquadParametersKind::HighshelfFO)
        } else if t == "Lowshelf"@ {
            Some(BiquadParametersKind::Lowshelf)
        } else if t == "LowshelfFO"@ {
            Some(BiquadParametersKind::LowshelfFO)
        } else if t == "HighpassFO"@ {
            Some(BiquadParametersKind::HighpassFO)
        } else if t == "LowpassFO"@ {
            Some(BiquadParametersKind::LowpassFO)
        } else if t == "Allpass"@ {
            Some(BiquadParametersKind::Allpass)
        } else if t == "AllpassFO"@ {
            Some(BiquadParametersKind::AllpassFO)
        } else if t == "Bandpass"@ {
            Some(BiquadParametersKind::Bandpass)
        } else if t == "Notch"@ {
            Some(BiquadParametersKind::Notch)
        } else if t == "GeneralNotch"@ {
            Some(BiquadParametersKind::GeneralNotch)
        } else if t == "LinkwitzTransform"@ {
            Some(BiquadParametersKind::LinkwitzTransform)
        } else {
            None
        }
    }

    fn as_str(&self) -> (r: &'static str) {
        match self {
            BiquadParametersKind::Free => "Free",
            BiquadParametersKind::Highpass => "Highpass",
            BiquadParametersKind::Lowpass => "Lowpass",
            BiquadParametersKind::Peaking => "Peaking",
            BiquadParametersKind::Highshelf => "Highshelf",
            BiquadParametersKind::HighshelfFO => "HighshelfFO",
            BiquadParametersKind::Lowshelf => "Lowshelf",
            BiquadParametersKind::LowshelfFO => "LowshelfFO",
            BiquadParametersKind::HighpassFO => "HighpassFO",
            BiquadParametersKind::LowpassFO => "LowpassFO",
            BiquadParametersKind::Allpass => "Allpass",
            BiquadParametersKind::AllpassFO => "AllpassFO",
            BiquadParametersKind::Bandpass => "Bandpass",
            BiquadParametersKind::Notch => "Notch",
            BiquadParametersKind::GeneralNotch => "GeneralNotch",
            BiquadParametersKind::LinkwitzTransform => "LinkwitzTransform",
        }
    }

    fn from_name(t: &str) -> (r: Option<BiquadParametersKind>) {
        if same_text(t, "Free") {
            Some(BiquadParametersKind::Free)
        } else if same_text(t, "Highpass") {
            Some(BiquadParametersKind::Highpass)
        } else if same_text(t, "Lowpass") {
            Some(BiquadParametersKind::Lowpass)
        } else if same_text(t, "Peaking") {
            Some(BiquadParametersKind::Peaking)
        } else if same_text(t, "Highshelf") {
            Some(BiquadParametersKind::Highshelf)
        } else if same_text(t, "HighshelfFO") {
            Some(BiquadParametersKind::HighshelfFO)
        } else if same_text(t, "Lowshelf") {
            Some(BiquadParametersKind::Lowshelf)
        } else if same_text(t, "LowshelfFO") {
            Some(BiquadParametersKind::LowshelfFO)
        } else if same_text(t, "HighpassFO") {
            Some(BiquadParametersKind::HighpassFO)
        } else if same_text(t, "LowpassFO") {
            Some(BiquadParametersKind::LowpassFO)
        } else if same_text(t, "Allpass") {
            Some(BiquadParametersKind::Allpass)
        } else if same_text(t, "AllpassFO") {
            Some(BiquadParametersKind::AllpassFO)
        } else if same_text(t, "Bandpass") {
            Some(BiquadParametersKind::Bandpass)
        } else if same_text(t, "Notch") {
            Some(BiquadParametersKind::Notch)
        } else if same_text(t, "GeneralNotch") {
            Some(BiquadParametersKind::GeneralNotch)
        } else if same_text(t, "LinkwitzTransform") {
            Some(BiquadParametersKind::LinkwitzTransform)
        } else {
            None
        }
    }

    proof fn lemma_named(self) {
        reveal_strlit("Free");
        reveal_strlit("Highpass");
        reveal_strlit("Lowpass");
        reveal_strlit("Peaking");
        reveal_strlit("Highshelf");
        reveal_strlit("HighshelfFO");
        reveal_strlit("Lowshelf");
        reveal_strlit("LowshelfFO");
        reveal_strlit("HighpassFO");
        reveal_strlit("LowpassFO");
        reveal_strlit("Allpass");
        reveal_strlit("AllpassFO");
        reveal_strlit("Bandpass");
        reveal_strlit("Notch");
        reveal_strlit("GeneralNotch");
        reveal_strlit("LinkwitzTransform");
        assert("Free"@.len() == 4);
        assert("Highpass"@.len() == 8 && "Highpass"@[0] == 'H');
        assert("Lowpass"@.len() == 7 && "Lowpass"@[0] == 'L');
        assert("Peaking"@.len() == 7 && "Peaking"@[0] == 'P');
        assert("Highshelf"@.len() == 9 && "Highshelf"@[0] == 'H');
        assert("HighshelfFO"@.len() == 11);
        assert("Lowshelf"@.len() == 8 && "Lowshelf"@[0] == 'L');
        assert("LowshelfFO"@.len() == 10 && "LowshelfFO"@[0] == 'L');
        assert("HighpassFO"@.len() == 10 && "HighpassFO"@[0] == 'H');
        assert("LowpassFO"@.len() == 9 && "LowpassFO"@[0] == 'L');
        assert("Allpass"@.len() == 7 && "Allpass"@[0] == 'A');
        assert("AllpassFO"@.len() == 9 && "AllpassFO"@[0] == 'A');
        assert("Bandpass"@.len() == 8 && "Bandpass"@[0] == 'B');
        assert("Notch"@.len() == 5);
        assert("GeneralNotch"@.len() == 12);
        assert("LinkwitzTransform"@.len() == 17);
    }
}

impl DeepView for BiquadParameters {
    type V = BiquadParametersView;

    open spec fn deep_view(&self) -> BiquadParametersView {
        match self {
            BiquadParameters::Free { a1, a2, b0, b1, b2 } => BiquadParametersView::Free {
                a1: a1.deep_view(),
                a2: a2.deep_view(),
                b0: b0.deep_view(),
                b1: b1.deep_view(),
                b2: b2.deep_view(),
            },
            BiquadParameters::Highpass { freq, q } => BiquadParametersView::Highpass {
                freq: freq.deep_view(),
                q: q.deep_view(),
            },
            BiquadParameters::Lowpass { freq, q } => BiquadParametersView::Lowpass {
                freq: freq.deep_view(),
                q: q.deep_view(),
            },
            BiquadParameters::Peaking(p) => BiquadParametersView::Peaking(p.deep_view()),
            BiquadParameters::Highshelf(p) => BiquadParametersView::Highshelf(p.deep_view()),
            BiquadParameters::HighshelfFO { freq, gain } => BiquadParametersView::HighshelfFO {
                freq: freq.deep_view(),
                gain: gain.deep_view(),
            },
            BiquadParameters::Lowshelf(p) => BiquadParametersView::Lowshelf(p.deep_view()),
            BiquadParameters::LowshelfFO { freq, gain } => BiquadParametersView::LowshelfFO {
                freq: freq.deep_view(),
                gain: gain.deep_view(),
            },
            BiquadParameters::HighpassFO { freq } => BiquadParametersView::HighpassFO {
                freq: freq.deep_view(),
            },
            BiquadParameters::LowpassFO { freq } => BiquadParametersView::LowpassFO {
                freq: freq.deep_view(),
            },
            BiquadParameters::Allpass(p) => BiquadParametersView::Allpass(p.deep_view()),
            BiquadParameters::AllpassFO { freq } => BiquadParametersView::AllpassFO {
                freq: freq.deep_view(),
            },
            BiquadParameters::Bandpass(p) => BiquadParametersView::Bandpass(p.deep_view()),
            BiquadParameters::Notch(p) => BiquadParametersView::Notch(p.deep_view()),
            BiquadParameters::GeneralNotch(p) => BiquadParametersView::GeneralNotch(p.deep_view()),
            BiquadParameters::LinkwitzTransform { freq_act, q_act, freq_target, q_target } => BiquadParametersView::LinkwitzTransform {
                freq_act: freq_act.deep_view(),
                q_act: q_act.deep_view(),
                freq_target: freq_target.deep_view(),
                q_target: q_target.deep_view(),
            },
        }
    }
}

impl BiquadParameters {
    /// The keys that the variant `Free` declares.
    pub open spec fn names_free() -> Seq<Seq<char>> {
        seq!["a1"@, "a2"@, "b0"@, "b1"@, "b2"@]
    }

    /// The keys of the variant `Free` are distinct, and none is the key of a discriminant.
    pub proof fn lemma_names_free()
        ensures
            Self::names_free().no_duplicates(),
            !Self::names_free().contains(tag_key()),
    {
        reveal_strlit("type");
        reveal_strlit("a1");
        reveal_strlit("a2");
        reveal_strlit("b0");
        reveal_strlit("b1");
        reveal_strlit("b2");
        assert("type"@.len() == 4);
        assert("a1"@.len() == 2 && "a1"@[0] == 'a' && "a1"@[1] == '1');
        assert("a2"@.len() == 2 && "a2"@[0] == 'a' && "a2"@[1] == '2');
        assert("b0"@.len() == 2 && "b0"@[0] == 'b' && "b0"@[1] == '0');
        assert("b1"@.len() == 2 && "b1"@[0] == 'b' && "b1"@[1] == '1');
        assert("b2"@.len() == 2 && "b2"@[0] == 'b' && "b2"@[1] == '2');
    }

    /// What the variant `Free` writes: one slot for each field.
    pub open spec fn slots_free(a1: NumeralView, a2: NumeralView, b0: NumeralView, b1: NumeralView, b2: NumeralView) -> Seq<Slot> {
        seq![
            slot::<Numeral>("a1"@, a1),
            slot::<Numeral>("a2"@, a2),
            slot::<Numeral>("b0"@, b0),
            slot::<Numeral>("b1"@, b1),
            slot::<Numeral>("b2"@, b2),
        ]
    }

    /// What entries stand for, read as the variant `Free`.
    pub open spec fn decode_free(m: Entries) -> Result<BiquadParametersView, Fault> {
        let a1 = required::<Numeral>(m, "a1"@);
        let a2 = required::<Numeral>(m, "a2"@);
        let b0 = required::<Numeral>(m, "b0"@);
        let b1 = required::<Numeral>(m, "b1"@);
        let b2 = required::<Numeral>(m, "b2"@);
        if let Some(e) = unknown_field(m, Self::names_free()) {
            Err(e)
        } else if a1 is Err {
            Err(a1->Err_0)
        } else if a2 is Err {
            Err(a2->Err_0)
        } else if b0 is Err {
            Err(b0->Err_0)
        } else if b1 is Err {
            Err(b1->Err_0)
        } else if b2 is Err {
            Err(b2->Err_0)
        } else {
            Ok(
                BiquadParametersView::Free {
                    a1: a1->Ok_0,
                    a2: a2->Ok_0,
                    b0: b0->Ok_0,
                    b1: b1->Ok_0,
                    b2: b2->Ok_0,
                },
            )
        }
    }

    /// Reads the variant `Free`.
    pub fn read_free(f: &Fields) -> (r: Result<BiquadParameters, SchemaError>)
        ensures
            r matches Ok(x) ==> Self::decode_free(f@) == Ok::<BiquadParametersView, Fault>(x.deep_view()),
            r matches Err(e) ==> Self::decode_free(f@) == Err::<BiquadParametersView, Fault>(e.deep_view()),
    {
        let known = vec!["a1", "a2", "b0", "b1", "b2"];
        proof {
            assert(texts(known@) =~= Self::names_free());
        }
        f.deny_unknown(&known)?;
        let a1 = f.required::<Numeral>("a1")?;
        let a2 = f.required::<Numeral>("a2")?;
        let b0 = f.required::<Numeral>("b0")?;
        let b1 = f.required::<Numeral>("b1")?;
        let b2 = f.required::<Numeral>("b2")?;
        Ok(BiquadParameters::Free { a1, a2, b0, b1, b2 })
    }

    /// Writes the fields of the variant `Free` after what `w` holds.
    pub fn write_free(w: Writer, a1: &Numeral, a2: &Numeral, b0: &Numeral, b1: &Numeral, b2: &Numeral) -> (r: Writer)
        ensures
            r.slots() == w.slots() + Self::slots_free(a1.deep_view(), a2.deep_view(), b0.deep_view(), b1.deep_view(), b2.deep_view()),
    {
        let ghost before = w.slots();
        let w = w.put::<Numeral>("a1", a1);
        let w = w.put::<Numeral>("a2", a2);
        let w = w.put::<Numeral>("b0", b0);
        let w = w.put::<Numeral>("b1", b1);
        let w = w.put::<Numeral>("b2", b2);
        proof {
            assert(w.slots() =~= before + Self::slots_free(a1.deep_view(), a2.deep_view(), b0.deep_view(), b1.deep_view(), b2.deep_view()));
        }
        w
    }

    /// Reading what the variant `Free` wrote gives the fields back.
    pub proof fn lemma_free(a1: NumeralView, a2: NumeralView, b0: NumeralView, b1: NumeralView, b2: NumeralView)
        ensures
            distinct_names(Self::slots_free(a1, a2, b0, b1, b2)),
            !names_slot(Self::slots_free(a1, a2, b0, b1, b2), tag_key()),
            Self::decode_free(present(Self::slots_free(a1, a2, b0, b1, b2))) == Ok::<BiquadParametersView, Fault>(
                BiquadParametersView::Free { a1: a1, a2: a2, b0: b0, b1: b1, b2: b2 },
            ),
    {
        Self::lemma_names_free();
        let s = Self::slots_free(a1, a2, b0, b1, b2);
        lemma_slot_names(s, Self::names_free());
        lemma_present_known(s, Self::names_free());
        lemma_required::<Numeral>(s, 0, "a1"@, a1);
        lemma_required::<Numeral>(s, 1, "a2"@, a2);
        lemma_required::<Numeral>(s, 2, "b0"@, b0);
        lemma_required::<Numeral>(s, 3, "b1"@, b1);
        lemma_required::<Numeral>(s, 4, "b2"@, b2);
    }

    /// What the variant `Free` writes is like any entries that its fields were read from.
    pub proof fn lemma_like_free(m: Entries)
        requires
            distinct_keys(m),
        ensures
            Self::decode_free(m) matches Ok(BiquadParametersView::Free { a1, a2, b0, b1, b2 }) ==> alike_entries(
                m,
                present(Self::slots_free(a1, a2, b0, b1, b2)),
            ),
    {
        if let Ok(BiquadParametersView::Free { a1, a2, b0, b1, b2 }) = Self::decode_free(m) {
            Self::lemma_names_free();
            lemma_unknown_field(m, Self::names_free());
            let s = lemma_matched_none(m);
            let s = lemma_matched_required::<Numeral>(m, s, "a1"@, a1);
            let s = lemma_matched_required::<Numeral>(m, s, "a2"@, a2);
            let s = lemma_matched_required::<Numeral>(m, s, "b0"@, b0);
            let s = lemma_matched_required::<Numeral>(m, s, "b1"@, b1);
            let s = lemma_matched_required::<Numeral>(m, s, "b2"@, b2);
            assert(s =~= Self::slots_free(a1, a2, b0, b1, b2));
            lemma_slot_names(s, Self::names_free());
            lemma_alike_slots(m, s, Self::names_free());
        }
    }

    /// The keys that a variant with the fields `freq`, `q` declares.
    pub open spec fn names_freq_q() -> Seq<Seq<char>> {
        seq!["freq"@, "q"@]
    }

    /// The keys of a variant with the fields `freq`, `q` are distinct, and none is the key of a discriminant.
    pub proof fn lemma_names_freq_q()
        ensures
            Self::names_freq_q().no_duplicates(),
            !Self::names_freq_q().contains(tag_key()),
    {
        reveal_strlit("type");
        reveal_strlit("freq");
        reveal_strlit("q");
        assert("type"@.len() == 4 && "type"@[0] == 't');
        assert("freq"@.len() == 4 && "freq"@[0] == 'f');
        assert("q"@.len() == 1);
    }

    /// What a variant with the fields `freq`, `q` writes: one slot for each field.
    pub open spec fn slots_freq_q(freq: NumeralView, q: NumeralView) -> Seq<Slot> {
        seq![
            slot::<Numeral>("freq"@, freq),
            slot::<Numeral>("q"@, q),
        ]
    }

    /// What entries stand for, read as a variant with the fields `freq`, `q`.
    pub open spec fn decode_freq_q(m: Entries) -> Result<(NumeralView, NumeralView), Fault> {
        let freq = required::<Numeral>(m, "freq"@);
        let q = required::<Numeral>(m, "q"@);
        if let Some(e) = unknown_field(m, Self::names_freq_q()) {
            Err(e)
        } else if freq is Err {
            Err(freq->Err_0)
        } else if q is Err {
            Err(q->Err_0)
        } else {
            Ok((freq->Ok_0, q->Ok_0))
        }
    }

    /// Reads a variant with the fields `freq`, `q`.
    pub fn read_freq_q(f: &Fields) -> (r: Result<(Numeral, Numeral), SchemaError>)
        ensures
            r matches Ok(x) ==> Self::decode_freq_q(f@) == Ok::<(NumeralView, NumeralView), Fault>(x.deep_view()),
            r matches Err(e) ==> Self::decode_freq_q(f@) == Err::<(NumeralView, NumeralView), Fault>(e.deep_view()),
    {
        let known = vec!["freq", "q"];
        proof {
            assert(texts(known@) =~= Self::names_freq_q());
        }
        f.deny_unknown(&known)?;
        let freq = f.required::<Numeral>("freq")?;
        let q = f.required::<Numeral>("q")?;
        Ok((freq, q))
    }

    /// Writes the fields of a variant with the fields `freq`, `q` after what `w` holds.
    pub fn write_freq_q(w: Writer, freq: &Numeral, q: &Numeral) -> (r: Writer)
        ensures
            r.slots() == w.slots() + Self::slots_freq_q(freq.deep_view(), q.deep_view()),
    {
        let ghost before = w.slots();
        let w = w.put::<Numeral>("freq", freq);
        let w = w.put::<Numeral>("q", q);
        proof {
            assert(w.slots() =~= before + Self::slots_freq_q(freq.deep_view(), q.deep_view()));
        }
        w
    }

    /// Reading what a variant with the fields `freq`, `q` wrote gives the fields back.
    pub proof fn lemma_freq_q(freq: NumeralView, q: NumeralView)
        ensures
            distinct_names(Self::slots_freq_q(freq, q)),
            !names_slot(Self::slots_freq_q(freq, q), tag_key()),
            Self::decode_freq_q(present(Self::slots_freq_q(freq, q))) == Ok::<(NumeralView, NumeralView), Fault>(
                (freq, q),
            ),
    {
        Self::lemma_names_freq_q();
        let s = Self::slots_freq_q(freq, q);
        lemma_slot_names(s, Self::names_freq_q());
        lemma_present_known(s, Self::names_freq_q());
        lemma_required::<Numeral>(s, 0, "freq"@, freq);
        lemma_required::<Numeral>(s, 1, "q"@, q);
    }

    /// What a variant with the fields `freq`, `q` writes is like any entries that its fields were read from.
    pub proof fn lemma_like_freq_q(m: Entries)
        requires
            distinct_keys(m),
        ensures
            Self::decode_freq_q(m) matches Ok((freq, q)) ==> alike_entries(
                m,
                present(Self::slots_freq_q(freq, q)),
            ),
    {
        if let Ok((freq, q)) = Self::decode_freq_q(m) {
            Self::lemma_names_freq_q();
            lemma_unknown_field(m, Self::names_freq_q());
            let s = lemma_matched_none(m);
            let s = lemma_matched_required::<Numeral>(m, s, "freq"@, freq);
            let s = lemma_matched_required::<Numeral>(m, s, "q"@, q);
            assert(s =~= Self::slots_freq_q(freq, q));
            lemma_slot_names(s, Self::names_freq_q());
            lemma_alike_slots(m, s, Self::names_freq_q());
        }
    }

    /// The keys that a variant with the fields `freq`, `gain` declares.
    pub open spec fn names_freq_gain() -> Seq<Seq<char>> {
        seq!["freq"@, "gain"@]
    }

    /// The keys of a variant with the fields `freq`, `gain` are distinct, and none is the key of a discriminant.
    pub proof fn lemma_names_freq_gain()
        ensures
            Self::names_freq_gain().no_duplicates(),
            !Self::names_freq_gain().contains(tag_key()),
    {
        reveal_strlit("type");
        reveal_strlit("freq");
        reveal_strlit("gain");
        assert("type"@.len() == 4 && "type"@[0] == 't');
        assert("freq"@.len() == 4 && "freq"@[0] == 'f');
        assert("gain"@.len() == 4 && "gain"@[0] == 'g');
    }

    /// What a variant with the fields `freq`, `gain` writes: one slot for each field.
    pub open spec fn slots_freq_gain(freq: NumeralView, gain: NumeralView) -> Seq<Slot> {
        seq![
            slot::<Numeral>("freq"@, freq),
            slot::<Numeral>("gain"@, gain),
        ]
    }

    /// What entries stand for, read as a variant with the fields `freq`, `gain`.
    pub open spec fn decode_freq_gain(m: Entries) -> Result<(NumeralView, NumeralView), Fault> {
        let freq = required::<Numeral>(m, "freq"@);
        let gain = required::<Numeral>(m, "gain"@);
        if let Some(e) = unknown_field(m, Self::names_freq_gain()) {
            Err(e)
        } else if freq is Err {
            Err(freq->Err_0)
        } else if gain is Err {
            Err(gain->Err_0)
        } else {
            Ok((freq->Ok_0, gain->Ok_0))
        }
    }

    /// Reads a variant with the fields `freq`, `gain`.
    pub fn read_freq_gain(f: &Fields) -> (r: Result<(Numeral, Numeral), SchemaError>)
        ensures
            r matches Ok(x) ==> Self::decode_freq_gain(f@) == Ok::<(NumeralView, NumeralView), Fault>(x.deep_view()),
            r matches Err(e) ==> Self::decode_freq_gain(f@) == Err::<(NumeralView, NumeralView), Fault>(e.deep_view()),
    {
        let known = vec!["freq", "gain"];
        proof {
            assert(texts(known@) =~= Self::names_freq_gain());
        }
        f.deny_unknown(&known)?;
        let freq = f.required::<Numeral>("freq")?;
        let gain = f.required::<Numeral>("gain")?;
        Ok((freq, gain))
    }

    /// Writes the fields of a variant with the fields `freq`, `gain` after what `w` holds.
    pub fn write_freq_gain(w: Writer, freq: &Numeral, gain: &Numeral) -> (r: Writer)
        ensures
            r.slots() == w.slots() + Self::slots_freq_gain(freq.deep_view(), gain.deep_view()),
    {
        let ghost before = w.slots();
        let w = w.put::<Numeral>("freq", freq);
        let w = w.put::<Numeral>("gain", gain);
        proof {
            assert(w.slots() =~= before + Self::slots_freq_gain(freq.deep_view(), gain.deep_view()));
        }
        w
    }

    /// Reading what a variant with the fields `freq`, `gain` wrote gives the fields back.
    pub proof fn lemma_freq_gain(freq: NumeralView, gain: NumeralView)
        ensures
            distinct_names(Self::slots_freq_gain(freq, gain)),
            !names_slot(Self::slots_freq_gain(freq, gain), tag_key()),
            Self::decode_freq_gain(present(Self::slots_freq_gain(freq, gain))) == Ok::<(NumeralView, NumeralView), Fault>(
                (freq, gain),
            ),
    {
        Self::lemma_names_freq_gain();
        let s = Self::slots_freq_gain(freq, gain);
        lemma_slot_names(s, Self::names_freq_gain());
        lemma_present_known(s, Self::names_freq_gain());
        lemma_required::<Numeral>(s, 0, "freq"@, freq);
        lemma_required::<Numeral>(s, 1, "gain"@, gain);
    }

    /// What a variant with the fields `freq`, `gain` writes is like any entries that its fields were read from.
    pub proof fn lemma_like_freq_gain(m: Entries)
        requires
            distinct_keys(m),
        ensures
            Self::decode_freq_gain(m) matches Ok((freq, gain)) ==> alike_entries(
                m,
                present(Self::slots_freq_gain(freq, gain)),
            ),
    {
        if let Ok((freq, gain)) = Self::decode_freq_gain(m) {
            Self::lemma_names_freq_gain();
            lemma_unknown_field(m, Self::names_freq_gain());
            let s = lemma_matched_none(m);
            let s = lemma_matched_required::<Numeral>(m, s, "freq"@, freq);
            let s = lemma_matched_required::<Numeral>(m, s, "gain"@, gain);
            assert(s =~= Self::slots_freq_gain(freq, gain));
            lemma_slot_names(s, Self::names_freq_gain());
            lemma_alike_slots(m, s, Self::names_freq_gain());
        }
    }

    /// The keys that a variant with the fields `freq` declares.
    pub open spec fn names_freq() -> Seq<Seq<char>> {
        seq!["freq"@]
    }

    /// The keys of a variant with the fields `freq` are distinct, and none is the key of a discriminant.
    pub proof fn lemma_names_freq()
        ensures
            Self::names_freq().no_duplicates(),
            !Self::names_freq().contains(tag_key()),
    {
        reveal_strlit("type");
        reveal_strlit("freq");
        assert("type"@.len() == 4 && "type"@[0] == 't');
        assert("freq"@.len() == 4 && "freq"@[0] == 'f');
    }

    /// What a variant with the fields `freq` writes: one slot for each field.
    pub open spec fn slots_freq(freq: NumeralView) -> Seq<Slot> {
        seq![
            slot::<Numeral>("freq"@, freq),
        ]
    }

    /// What entries stand for, read as a variant with the fields `freq`.
    pub open spec fn decode_freq(m: Entries) -> Result<NumeralView, Fault> {
        let freq = required::<Numeral>(m, "freq"@);
        if let Some(e) = unknown_field(m, Self::names_freq()) {
            Err(e)
        } else if freq is Err {
            Err(freq->Err_0)
        } else {
            Ok(freq->Ok_0)
        }
    }

    /// Reads a variant with the fields `freq`.
    pub fn read_freq(f: &Fields) -> (r: Result<Numeral, SchemaError>)
        ensures
            r matches Ok(x) ==> Self::decode_freq(f@) == Ok::<NumeralView, Fault>(x.deep_view()),
            r matches Err(e) ==> Self::decode_freq(f@) == Err::<NumeralView, Fault>(e.deep_view()),
    {
        let known = vec!["freq"];
        proof {
            assert(texts(known@) =~= Self::names_freq());
        }
        f.deny_unknown(&known)?;
        let freq = f.required::<Numeral>("freq")?;
        Ok(freq)
    }

    /// Writes the fields of a variant with the fields `freq` after what `w` holds.
    pub fn write_freq(w: Writer, freq: &Numeral) -> (r: Writer)
        ensures
            r.slots() == w.slots() + Self::slots_freq(freq.deep_view()),
    {
        let ghost before = w.slots();
        let w = w.put::<Numeral>("freq", freq);
        proof {
            assert(w.slots() =~= before + Self::slots_freq(freq.deep_view()));
        }
        w
    }

    /// Reading what a variant with the fields `freq` wrote gives the fields back.
    pub proof fn lemma_freq(freq: NumeralView)
        ensures
            distinct_names(Self::slots_freq(freq)),
            !names_slot(Self::slots_freq(freq), tag_key()),
            Self::decode_freq(present(Self::slots_freq(freq))) == Ok::<NumeralView, Fault>(freq),
    {
        Self::lemma_names_freq();
        let s = Self::slots_freq(freq);
        lemma_slot_names(s, Self::names_freq());
        lemma_present_known(s, Self::names_freq());
        lemma_required::<Numeral>(s, 0, "freq"@, freq);
    }

    /// What a variant with the fields `freq` writes is like any entries that its fields were read from.
    pub proof fn lemma_like_freq(m: Entries)
        requires
            distinct_keys(m),
        ensures
            Self::decode_freq(m) matches Ok(freq) ==> alike_entries(
                m,
                present(Self::slots_freq(freq)),
            ),
    {
        if let Ok(freq) = Self::decode_freq(m) {
            Self::lemma_names_freq();
            lemma_unknown_field(m, Self::names_freq());
            let s = lemma_matched_none(m);
            let s = lemma_matched_required::<Numeral>(m, s, "freq"@, freq);
            assert(s =~= Self::slots_freq(freq));
            lemma_slot_names(s, Self::names_freq());
            lemma_alike_slots(m, s, Self::names_freq());
        }
    }

    /// The keys that the variant `LinkwitzTransform` declares.
    pub open spec fn names_linkwitz_transform() -> Seq<Seq<char>> {
        seq!["freq_act"@, "q_act"@, "freq_target"@, "q_target"@]
    }

    /// The keys of the variant `LinkwitzTransform` are distinct, and none is the key of a discriminant.
    pub proof fn lemma_names_linkwitz_transform()
        ensures
            Self::names_linkwitz_transform().no_duplicates(),
            !Self::names_linkwitz_transform().contains(tag_key()),
    {
        reveal_strlit("type");
        reveal_strlit("freq_act");
        reveal_strlit("q_act");
        reveal_strlit("freq_target");
        reveal_strlit("q_target");
        assert("type"@.len() == 4);
        assert("freq_act"@.len() == 8 && "freq_act"@[0] == 'f');
        assert("q_act"@.len() == 5);
        assert("freq_target"@.len() == 11);
        assert("q_target"@.len() == 8 && "q_target"@[0] == 'q');
    }

    /// What the variant `LinkwitzTransform` writes: one slot for each field.
    pub open spec fn slots_linkwitz_transform(freq_act: NumeralView, q_act: NumeralView, freq_target: NumeralView, q_target: NumeralView) -> Seq<Slot> {
        seq![
            slot::<Numeral>("freq_act"@, freq_act),
            slot::<Numeral>("q_act"@, q_act),
            slot::<Numeral>("freq_target"@, freq_target),
            slot::<Numeral>("q_target"@, q_target),
        ]
    }

    /// What entries stand for, read as the variant `LinkwitzTransform`.
    pub open spec fn decode_linkwitz_transform(m: Entries) -> Result<BiquadParametersView, Fault> {
        let freq_act = required::<Numeral>(m, "freq_act"@);
        let q_act = required::<Numeral>(m, "q_act"@);
        let freq_target = required::<Numeral>(m, "freq_target"@);
        let q_target = required::<Numeral>(m, "q_target"@);
        if let Some(e) = unknown_field(m, Self::names_linkwitz_transform()) {
            Err(e)
        } else if freq_act is Err {
            Err(freq_act->Err_0)
        } else if q_act is Err {
            Err(q_act->Err_0)
        } else if freq_target is Err {
            Err(freq_target->Err_0)
        } else if q_target is Err {
            Err(q_target->Err_0)
        } else {
            Ok(
                BiquadParametersView::LinkwitzTransform {
                    freq_act: freq_act->Ok_0,
                    q_act: q_act->Ok_0,
                    freq_target: freq_target->Ok_0,
                    q_target: q_target->Ok_0,
                },
            )
        }
    }

    /// Reads the variant `LinkwitzTransform`.
    pub fn read_linkwitz_transform(f: &Fields) -> (r: Result<BiquadParameters, SchemaError>)
        ensures
            r matches Ok(x) ==> Self::decode_linkwitz_transform(f@) == Ok::<BiquadParametersView, Fault>(x.deep_view()),
            r matches Err(e) ==> Self::decode_linkwitz_transform(f@) == Err::<BiquadParametersView, Fault>(e.deep_view()),
    {
        let known = vec!["freq_act", "q_act", "freq_target", "q_target"];
        proof {
            assert(texts(known@) =~= Self::names_linkwitz_transform());
        }
        f.deny_unknown(&known)?;
        let freq_act = f.required::<Numeral>("freq_act")?;
        let q_act = f.required::<Numeral>("q_act")?;
        let freq_target = f.required::<Numeral>("freq_target")?;
        let q_target = f.required::<Numeral>("q_target")?;
        Ok(BiquadParameters::LinkwitzTransform { freq_act, q_act, freq_target, q_target })
    }

    /// Writes the fields of the variant `LinkwitzTransform` after what `w` holds.
    pub fn write_linkwitz_transform(w: Writer, freq_act: &Numeral, q_act: &Numeral, freq_target: &Numeral, q_target: &Numeral) -> (r: Writer)
        ensures
            r.slots() == w.slots() + Self::slots_linkwitz_transform(freq_act.deep_view(), q_act.deep_view(), freq_target.deep_view(), q_target.deep_view()),
    {
        let ghost before = w.slots();
        let w = w.put::<Numeral>("freq_act", freq_act);
        let w = w.put::<Numeral>("q_act", q_act);
        let w = w.put::<Numeral>("freq_target", freq_target);
        let w = w.put::<Numeral>("q_target", q_target);
        proof {
            assert(w.slots() =~= before + Self::slots_linkwitz_transform(freq_act.deep_view(), q_act.deep_view(), freq_target.deep_view(), q_target.deep_view()));
        }
        w
    }

    /// Reading what the variant `LinkwitzTransform` wrote gives the fields back.
    pub proof fn lemma_linkwitz_transform(freq_act: NumeralView, q_act: NumeralView, freq_target: NumeralView, q_target: NumeralView)
        ensures
            distinct_names(Self::slots_linkwitz_transform(freq_act, q_act, freq_target, q_target)),
            !names_slot(Self::slots_linkwitz_transform(freq_act, q_act, freq_target, q_target), tag_key()),
            Self::decode_linkwitz_transform(present(Self::slots_linkwitz_transform(freq_act, q_act, freq_target, q_target))) == Ok::<BiquadParametersView, Fault>(
                BiquadParametersView::LinkwitzTransform { freq_act: freq_act, q_act: q_act, freq_target: freq_target, q_target: q_target },
            ),
    {
        Self::lemma_names_linkwitz_transform();
        let s = Self::slots_linkwitz_transform(freq_act, q_act, freq_target, q_target);
        lemma_slot_names(s, Self::names_linkwitz_transform());
        lemma_present_known(s, Self::names_linkwitz_transform());
        lemma_required::<Numeral>(s, 0, "freq_act"@, freq_act);
        lemma_required::<Numeral>(s, 1, "q_act"@, q_act);
        lemma_required::<Numeral>(s, 2, "freq_target"@, freq_target);
        lemma_required::<Numeral>(s, 3, "q_target"@, q_target);
    }

    /// What the variant `LinkwitzTransform` writes is like any entries that its fields were read from.
    pub proof fn lemma_like_linkwitz_transform(m: Entries)
        requires
            distinct_keys(m),
        ensures
            Self::decode_linkwitz_transform(m) matches Ok(BiquadParametersView::LinkwitzTransform { freq_act, q_act, freq_target, q_target }) ==> alike_entries(
                m,
                present(Self::slots_linkwitz_transform(freq_act, q_act, freq_target, q_target)),
            ),
    {
        if let Ok(BiquadParametersView::LinkwitzTransform { freq_act, q_act, freq_target, q_target }) = Self::decode_linkwitz_transform(m) {
            Self::lemma_names_linkwitz_transform();
            lemma_unknown_field(m, Self::names_linkwitz_transform());
            let s = lemma_matched_none(m);
            let s = lemma_matched_required::<Numeral>(m, s, "freq_act"@, freq_act);
            let s = lemma_matched_required::<Numeral>(m, s, "q_act"@, q_act);
            let s = lemma_matched_required::<Numeral>(m, s, "freq_target"@, freq_target);
            let s = lemma_matched_required::<Numeral>(m, s, "q_target"@, q_target);
            assert(s =~= Self::slots_linkwitz_transform(freq_act, q_act, freq_target, q_target));
            lemma_slot_names(s, Self::names_linkwitz_transform());
            lemma_alike_slots(m, s, Self::names_linkwitz_transform());
        }
    }

    /// The discriminant of a value.
    pub open spec fn kind_of(v: BiquadParametersView) -> BiquadParametersKind {
        match v {
            BiquadParametersView::Free { .. } => BiquadParametersKind::Free,
            BiquadParametersView::Highpass { .. } => BiquadParametersKind::Highpass,
            BiquadParametersView::Lowpass { .. } => BiquadParametersKind::Lowpass,
            BiquadParametersView::Peaking(_) => BiquadParametersKind::Peaking,
            BiquadParametersView::Highshelf(_) => BiquadParametersKind::Highshelf,
            BiquadParametersView::HighshelfFO { .. } => BiquadParametersKind::HighshelfFO,
            BiquadParametersView::Lowshelf(_) => BiquadParametersKind::Lowshelf,
            BiquadParametersView::LowshelfFO { .. } => BiquadParametersKind::LowshelfFO,
            BiquadParametersView::HighpassFO { .. } => BiquadParametersKind::HighpassFO,
            BiquadParametersView::LowpassFO { .. } => BiquadParametersKind::LowpassFO,
            BiquadParametersView::Allpass(_) => BiquadParametersKind::Allpass,
            BiquadParametersView::AllpassFO { .. } => BiquadParametersKind::AllpassFO,
            BiquadParametersView::Bandpass(_) => BiquadParametersKind::Bandpass,
            BiquadParametersView::Notch(_) => BiquadParametersKind::Notch,
            BiquadParametersView::GeneralNotch(_) => BiquadParametersKind::GeneralNotch,
            BiquadParametersView::LinkwitzTransform { .. } => BiquadParametersKind::LinkwitzTransform,
        }
    }

    /// What a value writes beside its discriminant.
    pub open spec fn variant_slots(v: BiquadParametersView) -> Seq<Slot> {
        match v {
            BiquadParametersView::Free { a1, a2, b0, b1, b2 } => Self::slots_free(a1, a2, b0, b1, b2),
            BiquadParametersView::Highpass { freq, q } => Self::slots_freq_q(freq, q),
            BiquadParametersView::Lowpass { freq, q } => Self::slots_freq_q(freq, q),
            BiquadParametersView::Peaking(p) => <PeakingWidth as Record>::slots(p),
            BiquadParametersView::Highshelf(p) => <ShelfSteepness as Record>::slots(p),
            BiquadParametersView::HighshelfFO { freq, gain } => Self::slots_freq_gain(freq, gain),
            BiquadParametersView::Lowshelf(p) => <ShelfSteepness as Record>::slots(p),
            BiquadParametersView::LowshelfFO { freq, gain } => Self::slots_freq_gain(freq, gain),
            BiquadParametersView::HighpassFO { freq } => Self::slots_freq(freq),
            BiquadParametersView::LowpassFO { freq } => Self::slots_freq(freq),
            BiquadParametersView::Allpass(p) => <NotchWidth as Record>::slots(p),
            BiquadParametersView::AllpassFO { freq } => Self::slots_freq(freq),
            BiquadParametersView::Bandpass(p) => <NotchWidth as Record>::slots(p),
            BiquadParametersView::Notch(p) => <NotchWidth as Record>::slots(p),
            BiquadParametersView::GeneralNotch(p) => <GeneralNotchParams as Record>::slots(p),
            BiquadParametersView::LinkwitzTransform { freq_act, q_act, freq_target, q_target } => Self::slots_linkwitz_transform(freq_act, q_act, freq_target, q_target),
        }
    }

    /// The value that entries stand for, read as the variant that `k` selects.
    pub open spec fn decode_variant(k: BiquadParametersKind, m: Entries) -> Result<BiquadParametersView, Fault> {
        match k {
            BiquadParametersKind::Free => Self::decode_free(m),
            BiquadParametersKind::Highpass => match Self::decode_freq_q(m) {
                Ok((freq, q)) => Ok(BiquadParametersView::Highpass { freq, q }),
                Err(e) => Err(e),
            },
            BiquadParametersKind::Lowpass => match Self::decode_freq_q(m) {
                Ok((freq, q)) => Ok(BiquadParametersView::Lowpass { freq, q }),
                Err(e) => Err(e),
            },
            BiquadParametersKind::Peaking => match <PeakingWidth as Record>::decode_fields(m) {
                Ok(p) => Ok(BiquadParametersView::Peaking(p)),
                Err(e) => Err(e),
            },
            BiquadParametersKind::Highshelf => match <ShelfSteepness as Record>::decode_fields(m) {
                Ok(p) => Ok(BiquadParametersView::Highshelf(p)),
                Err(e) => Err(e),
            },
            BiquadParametersKind::HighshelfFO => match Self::decode_freq_gain(m) {
                Ok((freq, gain)) => Ok(BiquadParametersView::HighshelfFO { freq, gain }),
                Err(e) => Err(e),
            },
            BiquadParametersKind::Lowshelf => match <ShelfSteepness as Record>::decode_fields(m) {
                Ok(p) => Ok(BiquadParametersView::Lowshelf(p)),
                Err(e) => Err(e),
            },
            BiquadParametersKind::LowshelfFO => match Self::decode_freq_gain(m) {
                Ok((freq, gain)) => Ok(BiquadParametersView::LowshelfFO { freq, gain }),
                Err(e) => Err(e),
            },
            BiquadParametersKind::HighpassFO => match Self::decode_freq(m) {
                Ok(freq) => Ok(BiquadParametersView::HighpassFO { freq }),
                Err(e) => Err(e),
            },
            BiquadParametersKind::LowpassFO => match Self::decode_freq(m) {
                Ok(freq) => Ok(BiquadParametersView::LowpassFO { freq }),
                Err(e) => Err(e),
            },
            BiquadParametersKind::Allpass => match <NotchWidth as Record>::decode_fields(m) {
                Ok(p) => Ok(BiquadParametersView::Allpass(p)),
                Err(e) => Err(e),
            },
            BiquadParametersKind::AllpassFO => match Self::decode_freq(m) {
                Ok(freq) => Ok(BiquadParametersView::AllpassFO { freq }),
                Err(e) => Err(e),
            },
            BiquadParametersKind::Bandpass => match <NotchWidth as Record>::decode_fields(m) {
                Ok(p) => Ok(BiquadParametersView::Bandpass(p)),
                Err(e) => Err(e),
            },
            BiquadParametersKind::Notch => match <NotchWidth as Record>::decode_fields(m) {
                Ok(p) => Ok(BiquadParametersView::Notch(p)),
                Err(e) => Err(e),
            },
            BiquadParametersKind::GeneralNotch => match <GeneralNotchParams as Record>::decode_fields(m) {
                Ok(p) => Ok(BiquadParametersView::GeneralNotch(p)),
                Err(e) => Err(e),
            },
            BiquadParametersKind::LinkwitzTransform => Self::decode_linkwitz_transform(m),
        }
    }
}

impl Schema for BiquadParameters {
    open spec fn decode(n: NodeView) -> Result<BiquadParametersView, Fault> {
        decode_tagged(n, |k: BiquadParametersKind, m: Entries| Self::decode_variant(k, m))
    }

    open spec fn encode(v: BiquadParametersView) -> NodeView {
        tagged_node(Self::kind_of(v).name(), Self::variant_slots(v))
    }

    fn from_node(n: &Node) -> (r: Result<BiquadParameters, SchemaError>) {
        let f = Fields::of(n)?;
        let (k, rest) = f.tagged::<BiquadParametersKind>()?;
        match k {
            BiquadParametersKind::Free => Self::read_free(&rest),
            BiquadParametersKind::Highpass => match Self::read_freq_q(&rest) {
                Ok((freq, q)) => Ok(BiquadParameters::Highpass { freq, q }),
                Err(e) => Err(e),
            },
            BiquadParametersKind::Lowpass => match Self::read_freq_q(&rest) {
                Ok((freq, q)) => Ok(BiquadParameters::Lowpass { freq, q }),
                Err(e) => Err(e),
            },
            BiquadParametersKind::Peaking => match <PeakingWidth as Record>::read_fields(&rest) {
                Ok(p) => Ok(BiquadParameters::Peaking(p)),
                Err(e) => Err(e),
            },
            BiquadParametersKind::Highshelf => match <ShelfSteepness as Record>::read_fields(&rest) {
                Ok(p) => Ok(BiquadParameters::Highshelf(p)),
                Err(e) => Err(e),
            },
            BiquadParametersKind::HighshelfFO => match Self::read_freq_gain(&rest) {
                Ok((freq, gain)) => Ok(BiquadParameters::HighshelfFO { freq, gain }),
                Err(e) => Err(e),
            },
            BiquadParametersKind::Lowshelf => match <ShelfSteepness as Record>::read_fields(&rest) {
                Ok(p) => Ok(BiquadParameters::Lowshelf(p)),
                Err(e) => Err(e),
            },
            BiquadParametersKind::LowshelfFO => match Self::read_freq_gain(&rest) {
                Ok((freq, gain)) => Ok(BiquadParameters::LowshelfFO { freq, gain }),
                Err(e) => Err(e),
            },
            BiquadParametersKind::HighpassFO => match Self::read_freq(&rest) {
                Ok(freq) => Ok(BiquadParameters::HighpassFO { freq }),
                Err(e) => Err(e),
            },
            BiquadParametersKind::LowpassFO => match Self::read_freq(&rest) {
                Ok(freq) => Ok(BiquadParameters::LowpassFO { freq }),
                Err(e) => Err(e),
            },
            BiquadParametersKind::Allpass => match <NotchWidth as Record>::read_fields(&rest) {
                Ok(p) => Ok(BiquadParameters::Allpass(p)),
                Err(e) => Err(e),
            },
            BiquadParametersKind::AllpassFO => match Self::read_freq(&rest) {
                Ok(freq) => Ok(BiquadParameters::AllpassFO { freq }),
                Err(e) => Err(e),
            },
            BiquadParametersKind::Bandpass => match <NotchWidth as Record>::read_fields(&rest) {
                Ok(p) => Ok(BiquadParameters::Bandpass(p)),
                Err(e) => Err(e),
            },
            BiquadParametersKind::Notch => match <NotchWidth as Record>::read_fields(&rest) {
                Ok(p) => Ok(BiquadParameters::Notch(p)),
                Err(e) => Err(e),
            },
            BiquadParametersKind::GeneralNotch => match <GeneralNotchParams as Record>::read_fields(&rest) {
                Ok(p) => Ok(BiquadParameters::GeneralNotch(p)),
                Err(e) => Err(e),
            },
            BiquadParametersKind::LinkwitzTransform => Self::read_linkwitz_transform(&rest),
        }
    }

    fn to_node(&self) -> (n: Node) {
        let ghost v = self.deep_view();
        let w = Writer::tagged(&self.kind());
        let w = match self {
            BiquadParameters::Free { a1, a2, b0, b1, b2 } => Self::write_free(w, a1, a2, b0, b1, b2),
            BiquadParameters::Highpass { freq, q } => Self::write_freq_q(w, freq, q),
            BiquadParameters::Lowpass { freq, q } => Self::write_freq_q(w, freq, q),
            BiquadParameters::Peaking(p) => p.write_fields(w),
            BiquadParameters::Highshelf(p) => p.write_fields(w),
            BiquadParameters::HighshelfFO { freq, gain } => Self::write_freq_gain(w, freq, gain),
            BiquadParameters::Lowshelf(p) => p.write_fields(w),
            BiquadParameters::LowshelfFO { freq, gain } => Self::write_freq_gain(w, freq, gain),
            BiquadParameters::HighpassFO { freq } => Self::write_freq(w, freq),
            BiquadParameters::LowpassFO { freq } => Self::write_freq(w, freq),
            BiquadParameters::Allpass(p) => p.write_fields(w),
            BiquadParameters::AllpassFO { freq } => Self::write_freq(w, freq),
            BiquadParameters::Bandpass(p) => p.write_fields(w),
            BiquadParameters::Notch(p) => p.write_fields(w),
            BiquadParameters::GeneralNotch(p) => p.write_fields(w),
            BiquadParameters::LinkwitzTransform { freq_act, q_act, freq_target, q_target } => Self::write_linkwitz_transform(w, freq_act, q_act, freq_target, q_target),
        };
        w.finish()
    }

    proof fn lemma_round_trip(v: BiquadParametersView) {
        Self::lemma_variant(v);
        lemma_tagged_round_trip(
            Self::kind_of(v),
            Self::variant_slots(v),
            |k: BiquadParametersKind, m: Entries| Self::decode_variant(k, m),
        );
    }

    proof fn lemma_faithful(n: NodeView) {
        if is_record(n) {
            if let Ok(k) = tag_of::<BiquadParametersKind>(entries(n)) {
                lemma_untagged_distinct::<BiquadParametersKind>(n);
                Self::lemma_variant_like(k, untagged(entries(n)));
                if let Ok(v) = Self::decode_variant(k, untagged(entries(n))) {
                    Self::lemma_variant(v);
                    lemma_tagged_faithful(n, k, Self::variant_slots(v));
                }
            }
        }
    }
}

impl BiquadParameters {
    /// Reading what a value writes beside its discriminant, as the variant of
    /// the value, gives the value back; its slots have distinct names, none of
    /// them the key of the discriminant.
    pub proof fn lemma_variant(v: BiquadParametersView)
        ensures
            distinct_names(Self::variant_slots(v)),
            !names_slot(Self::variant_slots(v), tag_key()),
            Self::decode_variant(Self::kind_of(v), present(Self::variant_slots(v))) == Ok::<BiquadParametersView, Fault>(v),
    {
        match v {
            BiquadParametersView::Free { a1, a2, b0, b1, b2 } => {
                Self::lemma_free(a1, a2, b0, b1, b2);
            },
            BiquadParametersView::Highpass { freq, q } => {
                Self::lemma_freq_q(freq, q);
            },
            BiquadParametersView::Lowpass { freq, q } => {
                Self::lemma_freq_q(freq, q);
            },
            BiquadParametersView::Peaking(p) => {
                <PeakingWidth as Record>::lemma_fields(p);
            },
            BiquadParametersView::Highshelf(p) => {
                <ShelfSteepness as Record>::lemma_fields(p);
            },
            BiquadParametersView::HighshelfFO { freq, gain } => {
                Self::lemma_freq_gain(freq, gain);
            },
            BiquadParametersView::Lowshelf(p) => {
                <ShelfSteepness as Record>::lemma_fields(p);
            },
            BiquadParametersView::LowshelfFO { freq, gain } => {
                Self::lemma_freq_gain(freq, gain);
            },
            BiquadParametersView::HighpassFO { freq } => {
                Self::lemma_freq(freq);
            },
            BiquadParametersView::LowpassFO { freq } => {
                Self::lemma_freq(freq);
            },
            BiquadParametersView::Allpass(p) => {
                <NotchWidth as Record>::lemma_fields(p);
            },
            BiquadParametersView::AllpassFO { freq } => {
                Self::lemma_freq(freq);
            },
            BiquadParametersView::Bandpass(p) => {
                <NotchWidth as Record>::lemma_fields(p);
            },
            BiquadParametersView::Notch(p) => {
                <NotchWidth as Record>::lemma_fields(p);
            },
            BiquadParametersView::GeneralNotch(p) => {
                <GeneralNotchParams as Record>::lemma_fields(p);
            },
            BiquadParametersView::LinkwitzTransform { freq_act, q_act, freq_target, q_target } => {
                Self::lemma_linkwitz_transform(freq_act, q_act, freq_target, q_target);
            },
        }
    }

    /// What a value writes beside its discriminant is like any entries that
    /// the value was read from as the variant that `k` selects; and the value
    /// is of that variant.
    pub proof fn lemma_variant_like(k: BiquadParametersKind, m: Entries)
        requires
            distinct_keys(m),
        ensures
            Self::decode_variant(k, m) matches Ok(v) ==> Self::kind_of(v) == k && alike_entries(
                m,
                present(Self::variant_slots(v)),
            ),
    {
        match k {
            BiquadParametersKind::Free => {
                Self::lemma_like_free(m);
            },
            BiquadParametersKind::Highpass => {
                Self::lemma_like_freq_q(m);
            },
            BiquadParametersKind::Lowpass => {
                Self::lemma_like_freq_q(m);
            },
            BiquadParametersKind::Peaking => {
                <PeakingWidth as Record>::lemma_fields_faithful(m);
            },
            BiquadParametersKind::Highshelf => {
                <ShelfSteepness as Record>::lemma_fields_faithful(m);
            },
            BiquadParametersKind::HighshelfFO => {
                Self::lemma_like_freq_gain(m);
            },
            BiquadParametersKind::Lowshelf => {
                <ShelfSteepness as Record>::lemma_fields_faithful(m);
            },
            BiquadParametersKind::LowshelfFO => {
                Self::lemma_like_freq_gain(m);
            },
            BiquadParametersKind::HighpassFO => {
                Self::lemma_like_freq(m);
            },
            BiquadParametersKind::LowpassFO => {
                Self::lemma_like_freq(m);
            },
            BiquadParametersKind::Allpass => {
                <NotchWidth as Record>::lemma_fields_faithful(m);
            },
            BiquadParametersKind::AllpassFO => {
                Self::lemma_like_freq(m);
            },
            BiquadParametersKind::Bandpass => {
                <NotchWidth as Record>::lemma_fields_faithful(m);
            },
            BiquadParametersKind::Notch => {
                <NotchWidth as Record>::lemma_fields_faithful(m);
            },
            BiquadParametersKind::GeneralNotch => {
                <GeneralNotchParams as Record>::lemma_fields_faithful(m);
            },
            BiquadParametersKind::LinkwitzTransform => {
                Self::lemma_like_linkwitz_transform(m);
            },
        }
    }

    /// The discriminant of the value.
    pub fn kind(&self) -> (k: BiquadParametersKind)
        ensures
            k == Self::kind_of(self.deep_view()),
    {
        match self {
            BiquadParameters::Free { .. } => BiquadParametersKind::Free,
            BiquadParameters::Highpass { .. } => BiquadParametersKind::Highpass,
            BiquadParameters::Lowpass { .. } => BiquadParametersKind::Lowpass,
            BiquadParameters::Peaking(_) => BiquadParametersKind::Peaking,
            BiquadParameters::Highshelf(_) => BiquadParametersKind::Highshelf,
            BiquadParameters::HighshelfFO { .. } => BiquadParametersKind::HighshelfFO,
            BiquadParameters::Lowshelf(_) => BiquadParametersKind::Lowshelf,
            BiquadParameters::LowshelfFO { .. } => BiquadParametersKind::LowshelfFO,
            BiquadParameters::HighpassFO { .. } => BiquadParametersKind::HighpassFO,
            BiquadParameters::LowpassFO { .. } => BiquadParametersKind::LowpassFO,
            BiquadParameters::Allpass(_) => BiquadParametersKind::Allpass,
            BiquadParameters::AllpassFO { .. } => BiquadParametersKind::AllpassFO,
            BiquadParameters::Bandpass(_) => BiquadParametersKind::Bandpass,
            BiquadParameters::Notch(_) => BiquadParametersKind::Notch,
            BiquadParameters::GeneralNotch(_) => BiquadParametersKind::GeneralNotch,
            BiquadParameters::LinkwitzTransform { .. } => BiquadParametersKind::LinkwitzTransform,
        }
    }
}

/// A graphic equalizer: a gain for each of its bands.
#[derive(Clone, Debug, PartialEq, Eq)]
pub struct GraphicEqualizerParameters {
    pub freq_min: Option<Numeral>,
    pub freq_max: Option<Numeral>,
    pub gains: Vec<Numeral>,
}

/// The mathematical value of a [`GraphicEqualizerParameters`].
pub struct GraphicEqualizerParametersView {
    pub freq_min: Option<NumeralView>,
    pub freq_max: Option<NumeralView>,
    pub gains: Seq<NumeralView>,
}

impl DeepView for GraphicEqualizerParameters {
    type V = GraphicEqualizerParametersView;

    open spec fn deep_view(&self) -> GraphicEqualizerParametersView {
        GraphicEqualizerParametersView {
            freq_min: self.freq_min.deep_view(),
            freq_max: self.freq_max.deep_view(),
            gains: self.gains.deep_view(),
        }
    }
}

impl GraphicEqualizerParameters {
    /// The keys that the record declares.
    pub open spec fn names() -> Seq<Seq<char>> {
        seq!["freq_min"@, "freq_max"@, "gains"@]
    }

    /// The keys of the record are distinct, and none is the key of a discriminant.
    pub proof fn lemma_names()
        ensures
            Self::names().no_duplicates(),
            !Self::names().contains(tag_key()),
    {
        reveal_strlit("type");
        reveal_strlit("freq_min");
        reveal_strlit("freq_max");
        reveal_strlit("gains");
        assert("type"@.len() == 4);
        assert("freq_min"@.len() == 8 && "freq_min"@[6] == 'i');
        assert("freq_max"@.len() == 8 && "freq_max"@[6] == 'a');
        assert("gains"@.len() == 5);
    }
}

impl Record for GraphicEqualizerParameters {
    open spec fn slots(v: GraphicEqualizerParametersView) -> Seq<Slot> {
        seq![
            slot_opt::<Numeral>("freq_min"@, v.freq_min),
            slot_opt::<Numeral>("freq_max"@, v.freq_max),
            slot::<Vec<Numeral>>("gains"@, v.gains),
        ]
    }

    open spec fn decode_fields(m: Entries) -> Result<GraphicEqualizerParametersView, Fault> {
        let freq_min = optional::<Numeral>(m, "freq_min"@);
        let freq_max = optional::<Numeral>(m, "freq_max"@);
        let gains = required::<Vec<Numeral>>(m, "gains"@);
        if let Some(e) = unknown_field(m, Self::names()) {
            Err(e)
        } else if freq_min is Err {
            Err(freq_min->Err_0)
        } else if freq_max is Err {
            Err(freq_max->Err_0)
        } else if gains is Err {
            Err(gains->Err_0)
        } else {
            Ok(
                GraphicEqualizerParametersView {
                    freq_min: freq_min->Ok_0,
                    freq_max: freq_max->Ok_0,
                    gains: gains->Ok_0,
                },
            )
        }
    }

    fn read_fields(f: &Fields) -> (r: Result<GraphicEqualizerParameters, SchemaError>) {
        let known = vec!["freq_min", "freq_max", "gains"];
        proof {
            assert(texts(known@) =~= Self::names());
        }
        f.deny_unknown(&known)?;
        let freq_min = f.optional::<Numeral>("freq_min")?;
        let freq_max = f.optional::<Numeral>("freq_max")?;
        let gains = f.required::<Vec<Numeral>>("gains")?;
        Ok(GraphicEqualizerParameters { freq_min, freq_max, gains })
    }

    fn write_fields(&self, w: Writer) -> (r: Writer) {
        let ghost before = w.slots();
        let w = w.put_opt::<Numeral>("freq_min", &self.freq_min);
        let w = w.put_opt::<Numeral>("freq_max", &self.freq_max);
        let w = w.put::<Vec<Numeral>>("gains", &self.gains);
        proof {
            assert(w.slots() =~= before + Self::slots(self.deep_view()));
        }
        w
    }

    proof fn lemma_fields(v: GraphicEqualizerParametersView) {
        Self::lemma_names();
        let s = Self::slots(v);
        lemma_slot_names(s, Self::names());
        lemma_present_known(s, Self::names());
        lemma_optional::<Numeral>(s, 0, "freq_min"@, v.freq_min);
        lemma_optional::<Numeral>(s, 1, "freq_max"@, v.freq_max);
        lemma_required::<Vec<Numeral>>(s, 2, "gains"@, v.gains);
    }

    proof fn lemma_fields_faithful(m: Entries) {
        if let Ok(v) = Self::decode_fields(m) {
            Self::lemma_names();
            lemma_unknown_field(m, Self::names());
            let s = lemma_matched_none(m);
            let s = lemma_matched_optional::<Numeral>(m, s, "freq_min"@, v.freq_min);
            let s = lemma_matched_optional::<Numeral>(m, s, "freq_max"@, v.freq_max);
            let s = lemma_matched_required::<Vec<Numeral>>(m, s, "gains"@, v.gains);
            assert(s =~= Self::slots(v));
            lemma_slot_names(s, Self::names());
            lemma_alike_slots(m, s, Self::names());
        }
    }
}

/// A filter of higher order, made of second-order sections.
#[derive(Clone, Debug, PartialEq, Eq)]
pub enum BiquadComboParameters {
    LinkwitzRileyHighpass { freq: Numeral, order: usize },
    LinkwitzRileyLowpass { freq: Numeral, order: usize },
    ButterworthHighpass { freq: Numeral, order: usize },
    ButterworthLowpass { freq: Numeral, order: usize },
    Tilt { gain: Numeral },
    FivePointPeq {
        fls: Numeral,
        qls: Numeral,
        gls: Numeral,
        fp1: Numeral,
        qp1: Numeral,
        gp1: Numeral,
        fp2: Numeral,
        qp2: Numeral,
        gp2: Numeral,
        fp3: Numeral,
        qp3: Numeral,
        gp3: Numeral,
        fhs: Numeral,
        qhs: Numeral,
        ghs: Numeral,
    },
    GraphicEqualizer(GraphicEqualizerParameters),
}

/// The mathematical value of a [`BiquadComboParameters`].
pub enum BiquadComboParametersView {
    LinkwitzRileyHighpass { freq: NumeralView, order: usize },
    LinkwitzRileyLowpass { freq: NumeralView, order: usize },
    ButterworthHighpass { freq: NumeralView, order: usize },
    ButterworthLowpass { freq: NumeralView, order: usize },
    Tilt { gain: NumeralView },
    FivePointPeq {
        fls: NumeralView,
        qls: NumeralView,
        gls: NumeralView,
        fp1: NumeralView,
        qp1: NumeralView,
        gp1: NumeralView,
        fp2: NumeralView,
        qp2: NumeralView,
        gp2: NumeralView,
        fp3: NumeralView,
        qp3: NumeralView,
        gp3: NumeralView,
        fhs: NumeralView,
        qhs: NumeralView,
        ghs: NumeralView,
    },
    GraphicEqualizer(GraphicEqualizerParametersView),
}

/// The discriminants of [`BiquadComboParameters`].
#[derive(Clone, Copy, Debug, PartialEq, Eq)]
pub enum BiquadComboParametersKind {
    LinkwitzRileyHighpass,
    LinkwitzRileyLowpass,
    ButterworthHighpass,
    ButterworthLowpass,
    Tilt,
    FivePointPeq,
    GraphicEqualizer,
}

impl Spelled for BiquadComboParametersKind {
    open spec fn name(self) -> Seq<char> {
        match self {
            BiquadComboParametersKind::LinkwitzRileyHighpass => "LinkwitzRileyHighpass"@,
            BiquadComboParametersKind::LinkwitzRileyLowpass => "LinkwitzRileyLowpass"@,
            BiquadComboParametersKind::ButterworthHighpass => "ButterworthHighpass"@,
            BiquadComboParametersKind::ButterworthLowpass => "ButterworthLowpass"@,
            BiquadComboParametersKind::Tilt => "Tilt"@,
            BiquadComboParametersKind::FivePointPeq => "FivePointPeq"@,
            BiquadComboParametersKind::GraphicEqualizer => "GraphicEqualizer"@,
        }
    }

    open spec fn named(t: Seq<char>) -> Option<BiquadComboParametersKind> {
        if t == "LinkwitzRileyHighpass"@ {
            Some(BiquadComboParametersKind::LinkwitzRileyHighpass)
        } else if t == "LinkwitzRileyLowpass"@ {
            Some(BiquadComboParametersKind::LinkwitzRileyLowpass)
        } else if t == "ButterworthHighpass"@ {
            Some(BiquadComboParametersKind::ButterworthHighpass)
        } else if t == "ButterworthLowpass"@ {
            Some(BiquadComboParametersKind::ButterworthLowpass)
        } else if t == "Tilt"@ {
            Some(BiquadComboParametersKind::Tilt)
        } else if t == "FivePointPeq"@ {
            Some(BiquadComboParametersKind::FivePointPeq)
        } else if t == "GraphicEqualizer"@ {
            Some(BiquadComboParametersKind::GraphicEqualizer)
        } else {
            None
        }
    }

    fn as_str(&self) -> (r: &'static str) {
        match self {
            BiquadComboParametersKind::LinkwitzRileyHighpass => "LinkwitzRileyHighpass",
            BiquadComboParametersKind::LinkwitzRileyLowpass => "LinkwitzRileyLowpass",
            BiquadComboParametersKind::ButterworthHighpass => "ButterworthHighpass",
            BiquadComboParametersKind::ButterworthLowpass => "ButterworthLowpass",
            BiquadComboParametersKind::Tilt => "Tilt",
            BiquadComboParametersKind::FivePointPeq => "FivePointPeq",
            BiquadComboParametersKind::GraphicEqualizer => "GraphicEqualizer",
        }
    }

    fn from_name(t: &str) -> (r: Option<BiquadComboParametersKind>) {
        if same_text(t, "LinkwitzRileyHighpass") {
            Some(BiquadComboParametersKind::LinkwitzRileyHighpass)
        } else if same_text(t, "LinkwitzRileyLowpass") {
            Some(BiquadComboParametersKind::LinkwitzRileyLowpass)
        } else if same_text(t, "ButterworthHighpass") {
            Some(BiquadComboParametersKind::ButterworthHighpass)
        } else if same_text(t, "ButterworthLowpass") {
            Some(BiquadComboParametersKind::ButterworthLowpass)
        } else if same_text(t, "Tilt") {
            Some(BiquadComboParametersKind::Tilt)
        } else if same_text(t, "FivePointPeq") {
            Some(BiquadComboParametersKind::FivePointPeq)
        } else if same_text(t, "GraphicEqualizer") {
            Some(BiquadComboParametersKind::GraphicEqualizer)
        } else {
            None
        }
    }

    proof fn lemma_named(self) {
        reveal_strlit("LinkwitzRileyHighpass");
        reveal_strlit("LinkwitzRileyLowpass");
        reveal_strlit("ButterworthHighpass");
        reveal_strlit("ButterworthLowpass");
        reveal_strlit("Tilt");
        reveal_strlit("FivePointPeq");
        reveal_strlit("GraphicEqualizer");
        assert("LinkwitzRileyHighpass"@.len() == 21);
        assert("LinkwitzRileyLowpass"@.len() == 20);
        assert("ButterworthHighpass"@.len() == 19);
        assert("ButterworthLowpass"@.len() == 18);
        assert("Tilt"@.len() == 4);
        assert("FivePointPeq"@.len() == 12);
        assert("GraphicEqualizer"@.len() == 16);
    }
}

impl DeepView for BiquadComboParameters {
    type V = BiquadComboParametersView;

    open spec fn deep_view(&self) -> BiquadComboParametersView {
        match self {
            BiquadComboParameters::LinkwitzRileyHighpass { freq, order } => BiquadComboParametersView::LinkwitzRileyHighpass {
                freq: freq.deep_view(),
                order: order.deep_view(),
            },
            BiquadComboParameters::LinkwitzRileyLowpass { freq, order } => BiquadComboParametersView::LinkwitzRileyLowpass {
                freq: freq.deep_view(),
                order: order.deep_view(),
            },
            BiquadComboParameters::ButterworthHighpass { freq, order } => BiquadComboParametersView::ButterworthHighpass {
                freq: freq.deep_view(),
                order: order.deep_view(),
            },
            BiquadComboParameters::ButterworthLowpass { freq, order } => BiquadComboParametersView::ButterworthLowpass {
                freq: freq.deep_view(),
                order: order.deep_view(),
            },
            BiquadComboParameters::Tilt { gain } => BiquadComboParametersView::Tilt {
                gain: gain.deep_view(),
            },
            BiquadComboParameters::FivePointPeq { fls, qls, gls, fp1, qp1, gp1, fp2, qp2, gp2, fp3, qp3, gp3, fhs, qhs, ghs } => BiquadComboParametersView::FivePointPeq {
                fls: fls.deep_view(),
                qls: qls.deep_view(),
                gls: gls.deep_view(),
                fp1: fp1.deep_view(),
                qp1: qp1.deep_view(),
                gp1: gp1.deep_view(),
                fp2: fp2.deep_view(),
                qp2: qp2.deep_view(),
                gp2: gp2.deep_view(),
                fp3: fp3.deep_view(),
                qp3: qp3.deep_view(),
                gp3: gp3.deep_view(),
                fhs: fhs.deep_view(),
                qhs: qhs.deep_view(),
                ghs: ghs.deep_view(),
            },
            BiquadComboParameters::GraphicEqualizer(p) => BiquadComboParametersView::GraphicEqualizer(p.deep_view()),
        }
    }
}

impl BiquadComboParameters {
    /// The keys that a variant with the fields `freq`, `order` declares.
    pub open spec fn names_freq_order() -> Seq<Seq<char>> {
        seq!["freq"@, "order"@]
    }

    /// The keys of a variant with the fields `freq`, `order` are distinct, and none is the key of a discriminant.
    pub proof fn lemma_names_freq_order()
        ensures
            Self::names_freq_order().no_duplicates(),
            !Self::names_freq_order().contains(tag_key()),
    {
        reveal_strlit("type");
        reveal_strlit("freq");
        reveal_strlit("order");
        assert("type"@.len() == 4 && "type"@[0] == 't');
        assert("freq"@.len() == 4 && "freq"@[0] == 'f');
        assert("order"@.len() == 5);
    }

    /// What a variant with the fields `freq`, `order` writes: one slot for each field.
    pub open spec fn slots_freq_order(freq: NumeralView, order: usize) -> Seq<Slot> {
        seq![
            slot::<Numeral>("freq"@, freq),
            slot::<usize>("order"@, order),
        ]
    }

    /// What entries stand for, read as a variant with the fields `freq`, `order`.
    pub open spec fn decode_freq_order(m: Entries) -> Result<(NumeralView, usize), Fault> {
        let freq = required::<Numeral>(m, "freq"@);
        let order = required::<usize>(m, "order"@);
        if let Some(e) = unknown_field(m, Self::names_freq_order()) {
            Err(e)
        } else if freq is Err {
            Err(freq->Err_0)
        } else if order is Err {
            Err(order->Err_0)
        } else {
            Ok((freq->Ok_0, order->Ok_0))
        }
    }

    /// Reads a variant with the fields `freq`, `order`.
    pub fn read_freq_order(f: &Fields) -> (r: Result<(Numeral, usize), SchemaError>)
        ensures
            r matches Ok(x) ==> Self::decode_freq_order(f@) == Ok::<(NumeralView, usize), Fault>(x.deep_view()),
            r matches Err(e) ==> Self::decode_freq_order(f@) == Err::<(NumeralView, usize), Fault>(e.deep_view()),
    {
        let known = vec!["freq", "order"];
        proof {
            assert(texts(known@) =~= Self::names_freq_order());
        }
        f.deny_unknown(&known)?;
        let freq = f.required::<Numeral>("freq")?;
        let order = f.required::<usize>("order")?;
        Ok((freq, order))
    }

    /// Writes the fields of a variant with the fields `freq`, `order` after what `w` holds.
    pub fn write_freq_order(w: Writer, freq: &Numeral, order: &usize) -> (r: Writer)
        ensures
            r.slots() == w.slots() + Self::slots_freq_order(freq.deep_view(), order.deep_view()),
    {
        let ghost before = w.slots();
        let w = w.put::<Numeral>("freq", freq);
        let w = w.put::<usize>("order", order);
        proof {
            assert(w.slots() =~= before + Self::slots_freq_order(freq.deep_view(), order.deep_view()));
        }
        w
    }

    /// Reading what a variant with the fields `freq`, `order` wrote gives the fields back.
    pub proof fn lemma_freq_order(freq: NumeralView, order: usize)
        ensures
            distinct_names(Self::slots_freq_order(freq, order)),
            !names_slot(Self::slots_freq_order(freq, order), tag_key()),
            Self::decode_freq_order(present(Self::slots_freq_order(freq, order))) == Ok::<(NumeralView, usize), Fault>(
                (freq, order),
            ),
    {
        Self::lemma_names_freq_order();
        let s = Self::slots_freq_order(freq, order);
        lemma_slot_names(s, Self::names_freq_order());
        lemma_present_known(s, Self::names_freq_order());
        lemma_required::<Numeral>(s, 0, "freq"@, freq);
        lemma_required::<usize>(s, 1, "order"@, order);
    }

    /// What a variant with the fields `freq`, `order` writes is like any entries that its fields were read from.
    pub proof fn lemma_like_freq_order(m: Entries)
        requires
            distinct_keys(m),
        ensures
            Self::decode_freq_order(m) matches Ok((freq, order)) ==> alike_entries(
                m,
                present(Self::slots_freq_order(freq, order)),
            ),
    {
        if let Ok((freq, order)) = Self::decode_freq_order(m) {
            Self::lemma_names_freq_order();
            lemma_unknown_field(m, Self::names_freq_order());
            let s = lemma_matched_none(m);
            let s = lemma_matched_required::<Numeral>(m, s, "freq"@, freq);
            let s = lemma_matched_required::<usize>(m, s, "order"@, order);
            assert(s =~= Self::slots_freq_order(freq, order));
            lemma_slot_names(s, Self::names_freq_order());
            lemma_alike_slots(m, s, Self::names_freq_order());
        }
    }

    /// The keys that the variant `Tilt` declares.
    pub open spec fn names_tilt() -> Seq<Seq<char>> {
        seq!["gain"@]
    }

    /// The keys of the variant `Tilt` are distinct, and none is the key of a discriminant.
    pub proof fn lemma_names_tilt()
        ensures
            Self::names_tilt().no_duplicates(),
            !Self::names_tilt().contains(tag_key()),
    {
        reveal_strlit("type");
        reveal_strlit("gain");
        assert("type"@.len() == 4 && "type"@[0] == 't');
        assert("gain"@.len() == 4 && "gain"@[0] == 'g');
    }

    /// What the variant `Tilt` writes: one slot for each field.
    pub open spec fn slots_tilt(gain: NumeralView) -> Seq<Slot> {
        seq![
            slot::<Numeral>("gain"@, gain),
        ]
    }

    /// What entries stand for, read as the variant `Tilt`.
    pub open spec fn decode_tilt(m: Entries) -> Result<BiquadComboParametersView, Fault> {
        let gain = required::<Numeral>(m, "gain"@);
        if let Some(e) = unknown_field(m, Self::names_tilt()) {
            Err(e)
        } else if gain is Err {
            Err(gain->Err_0)
        } else {
            Ok(BiquadComboParametersView::Tilt { gain: gain->Ok_0 })
        }
    }

    /// Reads the variant `Tilt`.
    pub fn read_tilt(f: &Fields) -> (r: Result<BiquadComboParameters, SchemaError>)
        ensures
            r matches Ok(x) ==> Self::decode_tilt(f@) == Ok::<BiquadComboParametersView, Fault>(x.deep_view()),
            r matches Err(e) ==> Self::decode_tilt(f@) == Err::<BiquadComboParametersView, Fault>(e.deep_view()),
    {
        let known = vec!["gain"];
        proof {
            assert(texts(known@) =~= Self::names_tilt());
        }
        f.deny_unknown(&known)?;
        let gain = f.required::<Numeral>("gain")?;
        Ok(BiquadComboParameters::Tilt { gain })
    }

    /// Writes the fields of the variant `Tilt` after what `w` holds.
    pub fn write_tilt(w: Writer, gain: &Numeral) -> (r: Writer)
        ensures
            r.slots() == w.slots() + Self::slots_tilt(gain.deep_view()),
    {
        let ghost before = w.slots();
        let w = w.put::<Numeral>("gain", gain);
        proof {
            assert(w.slots() =~= before + Self::slots_tilt(gain.deep_view()));
        }
        w
    }

    /// Reading what the variant `Tilt` wrote gives the fields back.
    pub proof fn lemma_tilt(gain: NumeralView)
        ensures
            distinct_names(Self::slots_tilt(gain)),
            !names_slot(Self::slots_tilt(gain), tag_key()),
            Self::decode_tilt(present(Self::slots_tilt(gain))) == Ok::<BiquadComboParametersView, Fault>(
                BiquadComboParametersView::Tilt { gain: gain },
            ),
    {
        Self::lemma_names_tilt();
        let s = Self::slots_tilt(gain);
        lemma_slot_names(s, Self::names_tilt());
        lemma_present_known(s, Self::names_tilt());
        lemma_required::<Numeral>(s, 0, "gain"@, gain);
    }

    /// What the variant `Tilt` writes is like any entries that its fields were read from.
    pub proof fn lemma_like_tilt(m: Entries)
        requires
            distinct_keys(m),
        ensures
            Self::decode_tilt(m) matches Ok(BiquadComboParametersView::Tilt { gain }) ==> alike_entries(
                m,
                present(Self::slots_tilt(gain)),
            ),
    {
        if let Ok(BiquadComboParametersView::Tilt { gain }) = Self::decode_tilt(m) {
            Self::lemma_names_tilt();
            lemma_unknown_field(m, Self::names_tilt());
            let s = lemma_matched_none(m);
            let s = lemma_matched_required::<Numeral>(m, s, "gain"@, gain);
            assert(s =~= Self::slots_tilt(gain));
            lemma_slot_names(s, Self::names_tilt());
            lemma_alike_slots(m, s, Self::names_tilt());
        }
    }

    /// The keys that the variant `FivePointPeq` declares.
    pub open spec fn names_five_point_peq() -> Seq<Seq<char>> {
        seq![
            "fls"@, "qls"@, "gls"@, "fp1"@, "qp1"@, "gp1"@, "fp2"@, "qp2"@, "gp2"@, "fp3"@, "qp3"@,
            "gp3"@, "fhs"@, "qhs"@, "ghs"@,
        ]
    }

    /// The keys of the variant `FivePointPeq` are distinct, and none is the key of a discriminant.
    pub proof fn lemma_names_five_point_peq()
        ensures
            Self::names_five_point_peq().no_duplicates(),
            !Self::names_five_point_peq().contains(tag_key()),
    {
        reveal_strlit("type");
        reveal_strlit("fls");
        reveal_strlit("qls");
        reveal_strlit("gls");
        reveal_strlit("fp1");
        reveal_strlit("qp1");
        reveal_strlit("gp1");
        reveal_strlit("fp2");
        reveal_strlit("qp2");
        reveal_strlit("gp2");
        reveal_strlit("fp3");
        reveal_strlit("qp3");
        reveal_strlit("gp3");
        reveal_strlit("fhs");
        reveal_strlit("qhs");
        reveal_strlit("ghs");
        assert("type"@.len() == 4);
        assert("fls"@.len() == 3 && "fls"@[0] == 'f' && "fls"@[1] == 'l');
        assert("qls"@.len() == 3 && "qls"@[0] == 'q' && "qls"@[1] == 'l');
        assert("gls"@.len() == 3 && "gls"@[0] == 'g' && "gls"@[1] == 'l');
        assert("fp1"@.len() == 3 && "fp1"@[0] == 'f' && "fp1"@[1] == 'p' && "fp1"@[2] == '1');
        assert("qp1"@.len() == 3 && "qp1"@[0] == 'q' && "qp1"@[1] == 'p' && "qp1"@[2] == '1');
        assert("gp1"@.len() == 3 && "gp1"@[0] == 'g' && "gp1"@[1] == 'p' && "gp1"@[2] == '1');
        assert("fp2"@.len() == 3 && "fp2"@[0] == 'f' && "fp2"@[1] == 'p' && "fp2"@[2] == '2');
        assert("qp2"@.len() == 3 && "qp2"@[0] == 'q' && "qp2"@[1] == 'p' && "qp2"@[2] == '2');
        assert("gp2"@.len() == 3 && "gp2"@[0] == 'g' && "gp2"@[1] == 'p' && "gp2"@[2] == '2');
        assert("fp3"@.len() == 3 && "fp3"@[0] == 'f' && "fp3"@[1] == 'p' && "fp3"@[2] == '3');
        assert("qp3"@.len() == 3 && "qp3"@[0] == 'q' && "qp3"@[1] == 'p' && "qp3"@[2] == '3');
        assert("gp3"@.len() == 3 && "gp3"@[0] == 'g' && "gp3"@[1] == 'p' && "gp3"@[2] == '3');
        assert("fhs"@.len() == 3 && "fhs"@[0] == 'f' && "fhs"@[1] == 'h');
        assert("qhs"@.len() == 3 && "qhs"@[0] == 'q' && "qhs"@[1] == 'h');
        assert("ghs"@.len() == 3 && "ghs"@[0] == 'g' && "ghs"@[1] == 'h');
    }

    /// What the variant `FivePointPeq` writes: one slot for each field.
    pub open spec fn slots_five_point_peq(fls: NumeralView, qls: NumeralView, gls: NumeralView, fp1: NumeralView, qp1: NumeralView, gp1: NumeralView, fp2: NumeralView, qp2: NumeralView, gp2: NumeralView, fp3: NumeralView, qp3: NumeralView, gp3: NumeralView, fhs: NumeralView, qhs: NumeralView, ghs: NumeralView) -> Seq<Slot> {
        seq![
            slot::<Numeral>("fls"@, fls),
            slot::<Numeral>("qls"@, qls),
            slot::<Numeral>("gls"@, gls),
            slot::<Numeral>("fp1"@, fp1),
            slot::<Numeral>("qp1"@, qp1),
            slot::<Numeral>("gp1"@, gp1),
            slot::<Numeral>("fp2"@, fp2),
            slot::<Numeral>("qp2"@, qp2),
            slot::<Numeral>("gp2"@, gp2),
            slot::<Numeral>("fp3"@, fp3),
            slot::<Numeral>("qp3"@, qp3),
            slot::<Numeral>("gp3"@, gp3),
            slot::<Numeral>("fhs"@, fhs),
            slot::<Numeral>("qhs"@, qhs),
            slot::<Numeral>("ghs"@, ghs),
        ]
    }

    /// What entries stand for, read as the variant `FivePointPeq`.
    pub open spec fn decode_five_point_peq(m: Entries) -> Result<BiquadComboParametersView, Fault> {
        let fls = required::<Numeral>(m, "fls"@);
        let qls = required::<Numeral>(m, "qls"@);
        let gls = required::<Numeral>(m, "gls"@);
        let fp1 = required::<Numeral>(m, "fp1"@);
        let qp1 = required::<Numeral>(m, "qp1"@);
        let gp1 = required::<Numeral>(m, "gp1"@);
        let fp2 = required::<Numeral>(m, "fp2"@);
        let qp2 = required::<Numeral>(m, "qp2"@);
        let gp2 = required::<Numeral>(m, "gp2"@);
        let fp3 = required::<Numeral>(m, "fp3"@);
        let qp3 = required::<Numeral>(m, "qp3"@);
        let gp3 = required::<Numeral>(m, "gp3"@);
        let fhs = required::<Numeral>(m, "fhs"@);
        let qhs = required::<Numeral>(m, "qhs"@);
        let ghs = required::<Numeral>(m, "ghs"@);
        if let Some(e) = unknown_field(m, Self::names_five_point_peq()) {
            Err(e)
        } else if fls is Err {
            Err(fls->Err_0)
        } else if qls is Err {
            Err(qls->Err_0)
        } else if gls is Err {
            Err(gls->Err_0)
        } else if fp1 is Err {
            Err(fp1->Err_0)
        } else if qp1 is Err {
            Err(qp1->Err_0)
        } else if gp1 is Err {
            Err(gp1->Err_0)
        } else if fp2 is Err {
            Err(fp2->Err_0)
        } else if qp2 is Err {
            Err(qp2->Err_0)
        } else if gp2 is Err {
            Err(gp2->Err_0)
        } else if fp3 is Err {
            Err(fp3->Err_0)
        } else if qp3 is Err {
            Err(qp3->Err_0)
        } else if gp3 is Err {
            Err(gp3->Err_0)
        } else if fhs is Err {
            Err(fhs->Err_0)
        } else if qhs is Err {
            Err(qhs->Err_0)
        } else if ghs is Err {
            Err(ghs->Err_0)
        } else {
            Ok(
                BiquadComboParametersView::FivePointPeq {
                    fls: fls->Ok_0,
                    qls: qls->Ok_0,
                    gls: gls->Ok_0,
                    fp1: fp1->Ok_0,
                    qp1: qp1->Ok_0,
                    gp1: gp1->Ok_0,
                    fp2: fp2->Ok_0,
                    qp2: qp2->Ok_0,
                    gp2: gp2->Ok_0,
                    fp3: fp3->Ok_0,
                    qp3: qp3->Ok_0,
                    gp3: gp3->Ok_0,
                    fhs: fhs->Ok_0,
                    qhs: qhs->Ok_0,
                    ghs: ghs->Ok_0,
                },
            )
        }
    }

    /// Reads the variant `FivePointPeq`.
    pub fn read_five_point_peq(f: &Fields) -> (r: Result<BiquadComboParameters, SchemaError>)
        ensures
            r matches Ok(x) ==> Self::decode_five_point_peq(f@) == Ok::<BiquadComboParametersView, Fault>(x.deep_view()),
            r matches Err(e) ==> Self::decode_five_point_peq(f@) == Err::<BiquadComboParametersView, Fault>(e.deep_view()),
    {
        let known = vec![
            "fls", "qls", "gls", "fp1", "qp1", "gp1", "fp2", "qp2", "gp2", "fp3", "qp3", "gp3",
            "fhs", "qhs", "ghs",
        ];
        proof {
            assert(texts(known@) =~= Self::names_five_point_peq());
        }
        f.deny_unknown(&known)?;
        let fls = f.required::<Numeral>("fls")?;
        let qls = f.required::<Numeral>("qls")?;
        let gls = f.required::<Numeral>("gls")?;
        let fp1 = f.required::<Numeral>("fp1")?;
        let qp1 = f.required::<Numeral>("qp1")?;
        let gp1 = f.required::<Numeral>("gp1")?;
        let fp2 = f.required::<Numeral>("fp2")?;
        let qp2 = f.required::<Numeral>("qp2")?;
        let gp2 = f.required::<Numeral>("gp2")?;
        let fp3 = f.required::<Numeral>("fp3")?;
        let qp3 = f.required::<Numeral>("qp3")?;
        let gp3 = f.required::<Numeral>("gp3")?;
        let fhs = f.required::<Numeral>("fhs")?;
        let qhs = f.required::<Numeral>("qhs")?;
        let ghs = f.required::<Numeral>("ghs")?;
        Ok(BiquadComboParameters::FivePointPeq { fls, qls, gls, fp1, qp1, gp1, fp2, qp2, gp2, fp3, qp3, gp3, fhs, qhs, ghs })
    }

    /// Writes the fields of the variant `FivePointPeq` after what `w` holds.
    pub fn write_five_point_peq(w: Writer, fls: &Numeral, qls: &Numeral, gls: &Numeral, fp1: &Numeral, qp1: &Numeral, gp1: &Numeral, fp2: &Numeral, qp2: &Numeral, gp2: &Numeral, fp3: &Numeral, qp3: &Numeral, gp3: &Numeral, fhs: &Numeral, qhs: &Numeral, ghs: &Numeral) -> (r: Writer)
        ensures
            r.slots() == w.slots() + Self::slots_five_point_peq(fls.deep_view(), qls.deep_view(), gls.deep_view(), fp1.deep_view(), qp1.deep_view(), gp1.deep_view(), fp2.deep_view(), qp2.deep_view(), gp2.deep_view(), fp3.deep_view(), qp3.deep_view(), gp3.deep_view(), fhs.deep_view(), qhs.deep_view(), ghs.deep_view()),
    {
        let ghost before = w.slots();
        let w = w.put::<Numeral>("fls", fls);
        let w = w.put::<Numeral>("qls", qls);
        let w = w.put::<Numeral>("gls", gls);
        let w = w.put::<Numeral>("fp1", fp1);
        let w = w.put::<Numeral>("qp1", qp1);
        let w = w.put::<Numeral>("gp1", gp1);
        let w = w.put::<Numeral>("fp2", fp2);
        let w = w.put::<Numeral>("qp2", qp2);
        let w = w.put::<Numeral>("gp2", gp2);
        let w = w.put::<Numeral>("fp3", fp3);
        let w = w.put::<Numeral>("qp3", qp3);
        let w = w.put::<Numeral>("gp3", gp3);
        let w = w.put::<Numeral>("fhs", fhs);
        let w = w.put::<Numeral>("qhs", qhs);
        let w = w.put::<Numeral>("ghs", ghs);
        proof {
            assert(w.slots() =~= before + Self::slots_five_point_peq(fls.deep_view(), qls.deep_view(), gls.deep_view(), fp1.deep_view(), qp1.deep_view(), gp1.deep_view(), fp2.deep_view(), qp2.deep_view(), gp2.deep_view(), fp3.deep_view(), qp3.deep_view(), gp3.deep_view(), fhs.deep_view(), qhs.deep_view(), ghs.deep_view()));
        }
        w
    }

    /// Reading what the variant `FivePointPeq` wrote gives the fields back.
    pub proof fn lemma_five_point_peq(fls: NumeralView, qls: NumeralView, gls: NumeralView, fp1: NumeralView, qp1: NumeralView, gp1: NumeralView, fp2: NumeralView, qp2: NumeralView, gp2: NumeralView, fp3: NumeralView, qp3: NumeralView, gp3: NumeralView, fhs: NumeralView, qhs: NumeralView, ghs: NumeralView)
        ensures
            distinct_names(Self::slots_five_point_peq(fls, qls, gls, fp1, qp1, gp1, fp2, qp2, gp2, fp3, qp3, gp3, fhs, qhs, ghs)),
            !names_slot(Self::slots_five_point_peq(fls, qls, gls, fp1, qp1, gp1, fp2, qp2, gp2, fp3, qp3, gp3, fhs, qhs, ghs), tag_key()),
            Self::decode_five_point_peq(present(Self::slots_five_point_peq(fls, qls, gls, fp1, qp1, gp1, fp2, qp2, gp2, fp3, qp3, gp3, fhs, qhs, ghs))) == Ok::<BiquadComboParametersView, Fault>(
                BiquadComboParametersView::FivePointPeq { fls: fls, qls: qls, gls: gls, fp1: fp1, qp1: qp1, gp1: gp1, fp2: fp2, qp2: qp2, gp2: gp2, fp3: fp3, qp3: qp3, gp3: gp3, fhs: fhs, qhs: qhs, ghs: ghs },
            ),
    {
        Self::lemma_names_five_point_peq();
        let s = Self::slots_five_point_peq(fls, qls, gls, fp1, qp1, gp1, fp2, qp2, gp2, fp3, qp3, gp3, fhs, qhs, ghs);
        lemma_slot_names(s, Self::names_five_point_peq());
        lemma_present_known(s, Self::names_five_point_peq());
        lemma_required::<Numeral>(s, 0, "fls"@, fls);
        lemma_required::<Numeral>(s, 1, "qls"@, qls);
        lemma_required::<Numeral>(s, 2, "gls"@, gls);
        lemma_required::<Numeral>(s, 3, "fp1"@, fp1);
        lemma_required::<Numeral>(s, 4, "qp1"@, qp1);
        lemma_required::<Numeral>(s, 5, "gp1"@, gp1);
        lemma_required::<Numeral>(s, 6, "fp2"@, fp2);
        lemma_required::<Numeral>(s, 7, "qp2"@, qp2);
        lemma_required::<Numeral>(s, 8, "gp2"@, gp2);
        lemma_required::<Numeral>(s, 9, "fp3"@, fp3);
        lemma_required::<Numeral>(s, 10, "qp3"@, qp3);
        lemma_required::<Numeral>(s, 11, "gp3"@, gp3);
        lemma_required::<Numeral>(s, 12, "fhs"@, fhs);
        lemma_required::<Numeral>(s, 13, "qhs"@, qhs);
        lemma_required::<Numeral>(s, 14, "ghs"@, ghs);
    }

    /// What the variant `FivePointPeq` writes is like any entries that its fields were read from.
    pub proof fn lemma_like_five_point_peq(m: Entries)
        requires
            distinct_keys(m),
        ensures
            Self::decode_five_point_peq(m) matches Ok(BiquadComboParametersView::FivePointPeq { fls, qls, gls, fp1, qp1, gp1, fp2, qp2, gp2, fp3, qp3, gp3, fhs, qhs, ghs }) ==> alike_entries(
                m,
                present(Self::slots_five_point_peq(fls, qls, gls, fp1, qp1, gp1, fp2, qp2, gp2, fp3, qp3, gp3, fhs, qhs, ghs)),
            ),
    {
        if let Ok(BiquadComboParametersView::FivePointPeq { fls, qls, gls, fp1, qp1, gp1, fp2, qp2, gp2, fp3, qp3, gp3, fhs, qhs, ghs }) = Self::decode_five_point_peq(m) {
            Self::lemma_names_five_point_peq();
            lemma_unknown_field(m, Self::names_five_point_peq());
            let s = lemma_matched_none(m);
            let s = lemma_matched_required::<Numeral>(m, s, "fls"@, fls);
            let s = lemma_matched_required::<Numeral>(m, s, "qls"@, qls);
            let s = lemma_matched_required::<Numeral>(m, s, "gls"@, gls);
            let s = lemma_matched_required::<Numeral>(m, s, "fp1"@, fp1);
            let s = lemma_matched_required::<Numeral>(m, s, "qp1"@, qp1);
            let s = lemma_matched_required::<Numeral>(m, s, "gp1"@, gp1);
            let s = lemma_matched_required::<Numeral>(m, s, "fp2"@, fp2);
            let s = lemma_matched_required::<Numeral>(m, s, "qp2"@, qp2);
            let s = lemma_matched_required::<Numeral>(m, s, "gp2"@, gp2);
            let s = lemma_matched_required::<Numeral>(m, s, "fp3"@, fp3);
            let s = lemma_matched_required::<Numeral>(m, s, "qp3"@, qp3);
            let s = lemma_matched_required::<Numeral>(m, s, "gp3"@, gp3);
            let s = lemma_matched_required::<Numeral>(m, s, "fhs"@, fhs);
            let s = lemma_matched_required::<Numeral>(m, s, "qhs"@, qhs);
            let s = lemma_matched_required::<Numeral>(m, s, "ghs"@, ghs);
            assert(s =~= Self::slots_five_point_peq(fls, qls, gls, fp1, qp1, gp1, fp2, qp2, gp2, fp3, qp3, gp3, fhs, qhs, ghs));
            lemma_slot_names(s, Self::names_five_point_peq());
            lemma_alike_slots(m, s, Self::names_five_point_peq());
        }
    }

    /// The discriminant of a value.
    pub open spec fn kind_of(v: BiquadComboParametersView) -> BiquadComboParametersKind {
        match v {
            BiquadComboParametersView::LinkwitzRileyHighpass { .. } => BiquadComboParametersKind::LinkwitzRileyHighpass,
            BiquadComboParametersView::LinkwitzRileyLowpass { .. } => BiquadComboParametersKind::LinkwitzRileyLowpass,
            BiquadComboParametersView::ButterworthHighpass { .. } => BiquadComboParametersKind::ButterworthHighpass,
            BiquadComboParametersView::ButterworthLowpass { .. } => BiquadComboParametersKind::ButterworthLowpass,
            BiquadComboParametersView::Tilt { .. } => BiquadComboParametersKind::Tilt,
            BiquadComboParametersView::FivePointPeq { .. } => BiquadComboParametersKind::FivePointPeq,
            BiquadComboParametersView::GraphicEqualizer(_) => BiquadComboParametersKind::GraphicEqualizer,
        }
    }

    /// What a value writes beside its discriminant.
    pub open spec fn variant_slots(v: BiquadComboParametersView) -> Seq<Slot> {
        match v {
            BiquadComboParametersView::LinkwitzRileyHighpass { freq, order } => Self::slots_freq_order(freq, order),
            BiquadComboParametersView::LinkwitzRileyLowpass { freq, order } => Self::slots_freq_order(freq, order),
            BiquadComboParametersView::ButterworthHighpass { freq, order } => Self::slots_freq_order(freq, order),
            BiquadComboParametersView::ButterworthLowpass { freq, order } => Self::slots_freq_order(freq, order),
            BiquadComboParametersView::Tilt { gain } => Self::slots_tilt(gain),
            BiquadComboParametersView::FivePointPeq { fls, qls, gls, fp1, qp1, gp1, fp2, qp2, gp2, fp3, qp3, gp3, fhs, qhs, ghs } => Self::slots_five_point_peq(fls, qls, gls, fp1, qp1, gp1, fp2, qp2, gp2, fp3, qp3, gp3, fhs, qhs, ghs),
            BiquadComboParametersView::GraphicEqualizer(p) => <GraphicEqualizerParameters as Record>::slots(p),
        }
    }

    /// The value that entries stand for, read as the variant that `k` selects.
    pub open spec fn decode_variant(k: BiquadComboParametersKind, m: Entries) -> Result<BiquadComboParametersView, Fault> {
        match k {
            BiquadComboParametersKind::LinkwitzRileyHighpass => match Self::decode_freq_order(m) {
                Ok((freq, order)) => Ok(BiquadComboParametersView::LinkwitzRileyHighpass { freq, order }),
                Err(e) => Err(e),
            },
            BiquadComboParametersKind::LinkwitzRileyLowpass => match Self::decode_freq_order(m) {
                Ok((freq, order)) => Ok(BiquadComboParametersView::LinkwitzRileyLowpass { freq, order }),
                Err(e) => Err(e),
            },
            BiquadComboParametersKind::ButterworthHighpass => match Self::decode_freq_order(m) {
                Ok((freq, order)) => Ok(BiquadComboParametersView::ButterworthHighpass { freq, order }),
                Err(e) => Err(e),
            },
            BiquadComboParametersKind::ButterworthLowpass => match Self::decode_freq_order(m) {
                Ok((freq, order)) => Ok(BiquadComboParametersView::ButterworthLowpass { freq, order }),
                Err(e) => Err(e),
            },
            BiquadComboParametersKind::Tilt => Self::decode_tilt(m),
            BiquadComboParametersKind::FivePointPeq => Self::decode_five_point_peq(m),
            BiquadComboParametersKind::GraphicEqualizer => match <GraphicEqualizerParameters as Record>::decode_fields(m) {
                Ok(p) => Ok(BiquadComboParametersView::GraphicEqualizer(p)),
                Err(e) => Err(e),
            },
        }
    }
}

impl Schema for BiquadComboParameters {
    open spec fn decode(n: NodeView) -> Result<BiquadComboParametersView, Fault> {
        decode_tagged(n, |k: BiquadComboParametersKind, m: Entries| Self::decode_variant(k, m))
    }

    open spec fn encode(v: BiquadComboParametersView) -> NodeView {
        tagged_node(Self::kind_of(v).name(), Self::variant_slots(v))
    }

    fn from_node(n: &Node) -> (r: Result<BiquadComboParameters, SchemaError>) {
        let f = Fields::of(n)?;
        let (k, rest) = f.tagged::<BiquadComboParametersKind>()?;
        match k {
            BiquadComboParametersKind::LinkwitzRileyHighpass => match Self::read_freq_order(&rest) {
                Ok((freq, order)) => Ok(BiquadComboParameters::LinkwitzRileyHighpass { freq, order }),
                Err(e) => Err(e),
            },
            BiquadComboParametersKind::LinkwitzRileyLowpass => match Self::read_freq_order(&rest) {
                Ok((freq, order)) => Ok(BiquadComboParameters::LinkwitzRileyLowpass { freq, order }),
                Err(e) => Err(e),
            },
            BiquadComboParametersKind::ButterworthHighpass => match Self::read_freq_order(&rest) {
                Ok((freq, order)) => Ok(BiquadComboParameters::ButterworthHighpass { freq, order }),
                Err(e) => Err(e),
            },
            BiquadComboParametersKind::ButterworthLowpass => match Self::read_freq_order(&rest) {
                Ok((freq, order)) => Ok(BiquadComboParameters::ButterworthLowpass { freq, order }),
                Err(e) => Err(e),
            },
            BiquadComboParametersKind::Tilt => Self::read_tilt(&rest),
            BiquadComboParametersKind::FivePointPeq => Self::read_five_point_peq(&rest),
            BiquadComboParametersKind::GraphicEqualizer => match <GraphicEqualizerParameters as Record>::read_fields(&rest) {
                Ok(p) => Ok(BiquadComboParameters::GraphicEqualizer(p)),
                Err(e) => Err(e),
            },
        }
    }

    fn to_node(&self) -> (n: Node) {
        let ghost v = self.deep_view();
        let w = Writer::tagged(&self.kind());
        let w = match self {
            BiquadComboParameters::LinkwitzRileyHighpass { freq, order } => Self::write_freq_order(w, freq, order),
            BiquadComboParameters::LinkwitzRileyLowpass { freq, order } => Self::write_freq_order(w, freq, order),
            BiquadComboParameters::ButterworthHighpass { freq, order } => Self::write_freq_order(w, freq, order),
            BiquadComboParameters::ButterworthLowpass { freq, order } => Self::write_freq_order(w, freq, order),
            BiquadComboParameters::Tilt { gain } => Self::write_tilt(w, gain),
            BiquadComboParameters::FivePointPeq { fls, qls, gls, fp1, qp1, gp1, fp2, qp2, gp2, fp3, qp3, gp3, fhs, qhs, ghs } => Self::write_five_point_peq(w, fls, qls, gls, fp1, qp1, gp1, fp2, qp2, gp2, fp3, qp3, gp3, fhs, qhs, ghs),
            BiquadComboParameters::GraphicEqualizer(p) => p.write_fields(w),
        };
        w.finish()
    }

    proof fn lemma_round_trip(v: BiquadComboParametersView) {
        Self::lemma_variant(v);
        lemma_tagged_round_trip(
            Self::kind_of(v),
            Self::variant_slots(v),
            |k: BiquadComboParametersKind, m: Entries| Self::decode_variant(k, m),
        );
    }

    proof fn lemma_faithful(n: NodeView) {
        if is_record(n) {
            if let Ok(k) = tag_of::<BiquadComboParametersKind>(entries(n)) {
                lemma_untagged_distinct::<BiquadComboParametersKind>(n);
                Self::lemma_variant_like(k, untagged(entries(n)));
                if let Ok(v) = Self::decode_variant(k, untagged(entries(n))) {
                    Self::lemma_variant(v);
                    lemma_tagged_faithful(n, k, Self::variant_slots(v));
                }
            }
        }
    }
}

impl BiquadComboParameters {
    /// Reading what a value writes beside its discriminant, as the variant of
    /// the value, gives the value back; its slots have distinct names, none of
    /// them the key of the discriminant.
    pub proof fn lemma_variant(v: BiquadComboParametersView)
        ensures
            distinct_names(Self::variant_slots(v)),
            !names_slot(Self::variant_slots(v), tag_key()),
            Self::decode_variant(Self::kind_of(v), present(Self::variant_slots(v))) == Ok::<BiquadComboParametersView, Fault>(v),
    {
        match v {
            BiquadComboParametersView::LinkwitzRileyHighpass { freq, order } => {
                Self::lemma_freq_order(freq, order);
            },
            BiquadComboParametersView::LinkwitzRileyLowpass { freq, order } => {
                Self::lemma_freq_order(freq, order);
            },
            BiquadComboParametersView::ButterworthHighpass { freq, order } => {
                Self::lemma_freq_order(freq, order);
            },
            BiquadComboParametersView::ButterworthLowpass { freq, order } => {
                Self::lemma_freq_order(freq, order);
            },
            BiquadComboParametersView::Tilt { gain } => {
                Self::lemma_tilt(gain);
            },
            BiquadComboParametersView::FivePointPeq { fls, qls, gls, fp1, qp1, gp1, fp2, qp2, gp2, fp3, qp3, gp3, fhs, qhs, ghs } => {
                Self::lemma_five_point_peq(fls, qls, gls, fp1, qp1, gp1, fp2, qp2, gp2, fp3, qp3, gp3, fhs, qhs, ghs);
            },
            BiquadComboParametersView::GraphicEqualizer(p) => {
                <GraphicEqualizerParameters as Record>::lemma_fields(p);
            },
        }
    }

    /// What a value writes beside its discriminant is like any entries that
    /// the value was read from as the variant that `k` selects; and the value
    /// is of that variant.
    pub proof fn lemma_variant_like(k: BiquadComboParametersKind, m: Entries)
        requires
            distinct_keys(m),
        ensures
            Self::decode_variant(k, m) matches Ok(v) ==> Self::kind_of(v) == k && alike_entries(
                m,
                present(Self::variant_slots(v)),
            ),
    {
        match k {
            BiquadComboParametersKind::LinkwitzRileyHighpass => {
                Self::lemma_like_freq_order(m);
            },
            BiquadComboParametersKind::LinkwitzRileyLowpass => {
                Self::lemma_like_freq_order(m);
            },
            BiquadComboParametersKind::ButterworthHighpass => {
                Self::lemma_like_freq_order(m);
            },
            BiquadComboParametersKind::ButterworthLowpass => {
                Self::lemma_like_freq_order(m);
            },
            BiquadComboParametersKind::Tilt => {
                Self::lemma_like_tilt(m);
            },
            BiquadComboParametersKind::FivePointPeq => {
                Self::lemma_like_five_point_peq(m);
            },
            BiquadComboParametersKind::GraphicEqualizer => {
                <GraphicEqualizerParameters as Record>::lemma_fields_faithful(m);
            },
        }
    }

    /// The discriminant of the value.
    pub fn kind(&self) -> (k: BiquadComboParametersKind)
        ensures
            k == Self::kind_of(self.deep_view()),
    {
        match self {
            BiquadComboParameters::LinkwitzRileyHighpass { .. } => BiquadComboParametersKind::LinkwitzRileyHighpass,
            BiquadComboParameters::LinkwitzRileyLowpass { .. } => BiquadComboParametersKind::LinkwitzRileyLowpass,
            BiquadComboParameters::ButterworthHighpass { .. } => BiquadComboParametersKind::ButterworthHighpass,
            BiquadComboParameters::ButterworthLowpass { .. } => BiquadComboParametersKind::ButterworthLowpass,
            BiquadComboParameters::Tilt { .. } => BiquadComboParametersKind::Tilt,
            BiquadComboParameters::FivePointPeq { .. } => BiquadComboParametersKind::FivePointPeq,
            BiquadComboParameters::GraphicEqualizer(_) => BiquadComboParametersKind::GraphicEqualizer,
        }
    }
}

/// A fixed gain.
#[derive(Clone, Debug, PartialEq, Eq)]
pub struct GainParameters {
    pub gain: Numeral,
    pub inverted: Option<bool>,
    pub mute: Option<bool>,
    pub scale: Option<GainScale>,
}

/// The mathematical value of a [`GainParameters`].
pub struct GainParametersView {
    pub gain: NumeralView,
    pub inverted: Option<bool>,
    pub mute: Option<bool>,
    pub scale: Option<GainScale>,
}

impl DeepView for GainParameters {
    type V = GainParametersView;

    open spec fn deep_view(&self) -> GainParametersView {
        GainParametersView {
            gain: self.gain.deep_view(),
            inverted: self.inverted.deep_view(),
            mute: self.mute.deep_view(),
            scale: self.scale.deep_view(),
        }
    }
}

impl GainParameters {
    /// The keys that the record declares.
    pub open spec fn names() -> Seq<Seq<char>> {
        seq!["gain"@, "inverted"@, "mute"@, "scale"@]
    }

    /// The keys of the record are distinct, and none is the key of a discriminant.
    pub proof fn lemma_names()
        ensures
            Self::names().no_duplicates(),
            !Self::names().contains(tag_key()),
    {
        reveal_strlit("type");
        reveal_strlit("gain");
        reveal_strlit("inverted");
        reveal_strlit("mute");
        reveal_strlit("scale");
        assert("type"@.len() == 4 && "type"@[0] == 't');
        assert("gain"@.len() == 4 && "gain"@[0] == 'g');
        assert("inverted"@.len() == 8);
        assert("mute"@.len() == 4 && "mute"@[0] == 'm');
        assert("scale"@.len() == 5);
    }
}

impl Record for GainParameters {
    open spec fn slots(v: GainParametersView) -> Seq<Slot> {
        seq![
            slot::<Numeral>("gain"@, v.gain),
            slot_opt::<bool>("inverted"@, v.inverted),
            slot_opt::<bool>("mute"@, v.mute),
            slot_opt::<GainScale>("scale"@, v.scale),
        ]
    }

    open spec fn decode_fields(m: Entries) -> Result<GainParametersView, Fault> {
        let gain = required::<Numeral>(m, "gain"@);
        let inverted = optional::<bool>(m, "inverted"@);
        let mute = optional::<bool>(m, "mute"@);
        let scale = optional::<GainScale>(m, "scale"@);
        if let Some(e) = unknown_field(m, Self::names()) {
            Err(e)
        } else if gain is Err {
            Err(gain->Err_0)
        } else if inverted is Err {
            Err(inverted->Err_0)
        } else if mute is Err {
            Err(mute->Err_0)
        } else if scale is Err {
            Err(scale->Err_0)
        } else {
            Ok(
                GainParametersView {
                    gain: gain->Ok_0,
                    inverted: inverted->Ok_0,
                    mute: mute->Ok_0,
                    scale: scale->Ok_0,
                },
            )
        }
    }

    fn read_fields(f: &Fields) -> (r: Result<GainParameters, SchemaError>) {
        let known = vec!["gain", "inverted", "mute", "scale"];
        proof {
            assert(texts(known@) =~= Self::names());
        }
        f.deny_unknown(&known)?;
        let gain = f.required::<Numeral>("gain")?;
        let inverted = f.optional::<bool>("inverted")?;
        let mute = f.optional::<bool>("mute")?;
        let scale = f.optional::<GainScale>("scale")?;
        Ok(GainParameters { gain, inverted, mute, scale })
    }

    fn write_fields(&self, w: Writer) -> (r: Writer) {
        let ghost before = w.slots();
        let w = w.put::<Numeral>("gain", &self.gain);
        let w = w.put_opt::<bool>("inverted", &self.inverted);
        let w = w.put_opt::<bool>("mute", &self.mute);
        let w = w.put_opt::<GainScale>("scale", &self.scale);
        proof {
            assert(w.slots() =~= before + Self::slots(self.deep_view()));
        }
        w
    }

    proof fn lemma_fields(v: GainParametersView) {
        Self::lemma_names();
        let s = Self::slots(v);
        lemma_slot_names(s, Self::names());
        lemma_present_known(s, Self::names());
        lemma_required::<Numeral>(s, 0, "gain"@, v.gain);
        lemma_optional::<bool>(s, 1, "inverted"@, v.inverted);
        lemma_optional::<bool>(s, 2, "mute"@, v.mute);
        lemma_optional::<GainScale>(s, 3, "scale"@, v.scale);
    }

    proof fn lemma_fields_faithful(m: Entries) {
        if let Ok(v) = Self::decode_fields(m) {
            Self::lemma_names();
            lemma_unknown_field(m, Self::names());
            let s = lemma_matched_none(m);
            let s = lemma_matched_required::<Numeral>(m, s, "gain"@, v.gain);
            let s = lemma_matched_optional::<bool>(m, s, "inverted"@, v.inverted);
            let s = lemma_matched_optional::<bool>(m, s, "mute"@, v.mute);
            let s = lemma_matched_optional::<GainScale>(m, s, "scale"@, v.scale);
            assert(s =~= Self::slots(v));
            lemma_slot_names(s, Self::names());
            lemma_alike_slots(m, s, Self::names());
        }
    }
}

/// A volume control that follows a fader.
#[derive(Clone, Debug, PartialEq, Eq)]
pub struct VolumeParameters {
    pub ramp_time: Option<Numeral>,
    pub fader: VolumeFader,
    pub limit: Option<Numeral>,
}

/// The mathematical value of a [`VolumeParameters`].
pub struct VolumeParametersView {
    pub ramp_time: Option<NumeralView>,
    pub fader: VolumeFader,
    pub limit: Option<NumeralView>,
}

impl DeepView for VolumeParameters {
    type V = VolumeParametersView;

    open spec fn deep_view(&self) -> VolumeParametersView {
        VolumeParametersView {
            ramp_time: self.ramp_time.deep_view(),
            fader: self.fader.deep_view(),
            limit: self.limit.deep_view(),
        }
    }
}

impl VolumeParameters {
    /// The keys that the record declares.
    pub open spec fn names() -> Seq<Seq<char>> {
        seq!["ramp_time"@, "fader"@, "limit"@]
    }

    /// The keys of the record are distinct, and none is the key of a discriminant.
    pub proof fn lemma_names()
        ensures
            Self::names().no_duplicates(),
            !Self::names().contains(tag_key()),
    {
        reveal_strlit("type");
        reveal_strlit("ramp_time");
        reveal_strlit("fader");
        reveal_strlit("limit");
        assert("type"@.len() == 4);
        assert("ramp_time"@.len() == 9);
        assert("fader"@.len() == 5 && "fader"@[0] == 'f');
        assert("limit"@.len() == 5 && "limit"@[0] == 'l');
    }
}

impl Record for VolumeParameters {
    open spec fn slots(v: VolumeParametersView) -> Seq<Slot> {
        seq![
            slot_opt::<Numeral>("ramp_time"@, v.ramp_time),
            slot::<VolumeFader>("fader"@, v.fader),
            slot_opt::<Numeral>("limit"@, v.limit),
        ]
    }

    open spec fn decode_fields(m: Entries) -> Result<VolumeParametersView, Fault> {
        let ramp_time = optional::<Numeral>(m, "ramp_time"@);
        let fader = required::<VolumeFader>(m, "fader"@);
        let limit = optional::<Numeral>(m, "limit"@);
        if let Some(e) = unknown_field(m, Self::names()) {
            Err(e)
        } else if ramp_time is Err {
            Err(ramp_time->Err_0)
        } else if fader is Err {
            Err(fader->Err_0)
        } else if limit is Err {
            Err(limit->Err_0)
        } else {
            Ok(
                VolumeParametersView {
                    ramp_time: ramp_time->Ok_0,
                    fader: fader->Ok_0,
                    limit: limit->Ok_0,
                },
            )
        }
    }

    fn read_fields(f: &Fields) -> (r: Result<VolumeParameters, SchemaError>) {
        let known = vec!["ramp_time", "fader", "limit"];
        proof {
            assert(texts(known@) =~= Self::names());
        }
        f.deny_unknown(&known)?;
        let ramp_time = f.optional::<Numeral>("ramp_time")?;
        let fader = f.required::<VolumeFader>("fader")?;
        let limit = f.optional::<Numeral>("limit")?;
        Ok(VolumeParameters { ramp_time, fader, limit })
    }

    fn write_fields(&self, w: Writer) -> (r: Writer) {
        let ghost before = w.slots();
        let w = w.put_opt::<Numeral>("ramp_time", &self.ramp_time);
        let w = w.put::<VolumeFader>("fader", &self.fader);
        let w = w.put_opt::<Numeral>("limit", &self.limit);
        proof {
            assert(w.slots() =~= before + Self::slots(self.deep_view()));
        }
        w
    }

    proof fn lemma_fields(v: VolumeParametersView) {
        Self::lemma_names();
        let s = Self::slots(v);
        lemma_slot_names(s, Self::names());
        lemma_present_known(s, Self::names());
        lemma_optional::<Numeral>(s, 0, "ramp_time"@, v.ramp_time);
        lemma_required::<VolumeFader>(s, 1, "fader"@, v.fader);
        lemma_optional::<Numeral>(s, 2, "limit"@, v.limit);
    }

    proof fn lemma_fields_faithful(m: Entries) {
        if let Ok(v) = Self::decode_fields(m) {
            Self::lemma_names();
            lemma_unknown_field(m, Self::names());
            let s = lemma_matched_none(m);
            let s = lemma_matched_optional::<Numeral>(m, s, "ramp_time"@, v.ramp_time);
            let s = lemma_matched_required::<VolumeFader>(m, s, "fader"@, v.fader);
            let s = lemma_matched_optional::<Numeral>(m, s, "limit"@, v.limit);
            assert(s =~= Self::slots(v));
            lemma_slot_names(s, Self::names());
            lemma_alike_slots(m, s, Self::names());
        }
    }
}

/// A loudness correction that follows a fader.
#[derive(Clone, Debug, PartialEq, Eq)]
pub struct LoudnessParameters {
    pub reference_level: Numeral,
    pub high_boost: Option<Numeral>,
    pub low_boost: Option<Numeral>,
    pub fader: Option<LoudnessFader>,
    pub attenuate_mid: Option<bool>,
}

/// The mathematical value of a [`LoudnessParameters`].
pub struct LoudnessParametersView {
    pub reference_level: NumeralView,
    pub high_boost: Option<NumeralView>,
    pub low_boost: Option<NumeralView>,
    pub fader: Option<LoudnessFader>,
    pub attenuate_mid: Option<bool>,
}

impl DeepView for LoudnessParameters {
    type V = LoudnessParametersView;

    open spec fn deep_view(&self) -> LoudnessParametersView {
        LoudnessParametersView {
            reference_level: self.reference_level.deep_view(),
            high_boost: self.high_boost.deep_view(),
            low_boost: self.low_boost.deep_view(),
            fader: self.fader.deep_view(),
            attenuate_mid: self.attenuate_mid.deep_view(),
        }
    }
}

impl LoudnessParameters {
    /// The keys that the record declares.
    pub open spec fn names() -> Seq<Seq<char>> {
        seq!["reference_level"@, "high_boost"@, "low_boost"@, "fader"@, "attenuate_mid"@]
    }

    /// The keys of the record are distinct, and none is the key of a discriminant.
    pub proof fn lemma_names()
        ensures
            Self::names().no_duplicates(),
            !Self::names().contains(tag_key()),
    {
        reveal_strlit("type");
        reveal_strlit("reference_level");
        reveal_strlit("high_boost");
        reveal_strlit("low_boost");
        reveal_strlit("fader");
        reveal_strlit("attenuate_mid");
        assert("type"@.len() == 4);
        assert("reference_level"@.len() == 15);
        assert("high_boost"@.len() == 10);
        assert("low_boost"@.len() == 9);
        assert("fader"@.len() == 5);
        assert("attenuate_mid"@.len() == 13);
    }
}

impl Record for LoudnessParameters {
    open spec fn slots(v: LoudnessParametersView) -> Seq<Slot> {
        seq![
            slot::<Numeral>("reference_level"@, v.reference_level),
            slot_opt::<Numeral>("high_boost"@, v.high_boost),
            slot_opt::<Numeral>("low_boost"@, v.low_boost),
            slot_opt::<LoudnessFader>("fader"@, v.fader),
            slot_opt::<bool>("attenuate_mid"@, v.attenuate_mid),
        ]
    }

    open spec fn decode_fields(m: Entries) -> Result<LoudnessParametersView, Fault> {
        let reference_level = required::<Numeral>(m, "reference_level"@);
        let high_boost = optional::<Numeral>(m, "high_boost"@);
        let low_boost = optional::<Numeral>(m, "low_boost"@);
        let fader = optional::<LoudnessFader>(m, "fader"@);
        let attenuate_mid = optional::<bool>(m, "attenuate_mid"@);
        if let Some(e) = unknown_field(m, Self::names()) {
            Err(e)
        } else if reference_level is Err {
            Err(reference_level->Err_0)
        } else if high_boost is Err {
            Err(high_boost->Err_0)
        } else if low_boost is Err {
            Err(low_boost->Err_0)
        } else if fader is Err {
            Err(fader->Err_0)
        } else if attenuate_mid is Err {
            Err(attenuate_mid->Err_0)
        } else {
            Ok(
                LoudnessParametersView {
                    reference_level: reference_level->Ok_0,
                    high_boost: high_boost->Ok_0,
                    low_boost: low_boost->Ok_0,
                    fader: fader->Ok_0,
                    attenuate_mid: attenuate_mid->Ok_0,
                },
            )
        }
    }

    fn read_fields(f: &Fields) -> (r: Result<LoudnessParameters, SchemaError>) {
        let known = vec!["reference_level", "high_boost", "low_boost", "fader", "attenuate_mid"];
        proof {
            assert(texts(known@) =~= Self::names());
        }
        f.deny_unknown(&known)?;
        let reference_level = f.required::<Numeral>("reference_level")?;
        let high_boost = f.optional::<Numeral>("high_boost")?;
        let low_boost = f.optional::<Numeral>("low_boost")?;
        let fader = f.optional::<LoudnessFader>("fader")?;
        let attenuate_mid = f.optional::<bool>("attenuate_mid")?;
        Ok(LoudnessParameters { reference_level, high_boost, low_boost, fader, attenuate_mid })
    }

    fn write_fields(&self, w: Writer) -> (r: Writer) {
        let ghost before = w.slots();
        let w = w.put::<Numeral>("reference_level", &self.reference_level);
        let w = w.put_opt::<Numeral>("high_boost", &self.high_boost);
        let w = w.put_opt::<Numeral>("low_boost", &self.low_boost);
        let w = w.put_opt::<LoudnessFader>("fader", &self.fader);
        let w = w.put_opt::<bool>("attenuate_mid", &self.attenuate_mid);
        proof {
            assert(w.slots() =~= before + Self::slots(self.deep_view()));
        }
        w
    }

    proof fn lemma_fields(v: LoudnessParametersView) {
        Self::lemma_names();
        let s = Self::slots(v);
        lemma_slot_names(s, Self::names());
        lemma_present_known(s, Self::names());
        lemma_required::<Numeral>(s, 0, "reference_level"@, v.reference_level);
        lemma_optional::<Numeral>(s, 1, "high_boost"@, v.high_boost);
        lemma_optional::<Numeral>(s, 2, "low_boost"@, v.low_boost);
        lemma_optional::<LoudnessFader>(s, 3, "fader"@, v.fader);
        lemma_optional::<bool>(s, 4, "attenuate_mid"@, v.attenuate_mid);
    }

    proof fn lemma_fields_faithful(m: Entries) {
        if let Ok(v) = Self::decode_fields(m) {
            Self::lemma_names();
            lemma_unknown_field(m, Self::names());
            let s = lemma_matched_none(m);
            let s = lemma_matched_required::<Numeral>(m, s, "reference_level"@, v.reference_level);
            let s = lemma_matched_optional::<Numeral>(m, s, "high_boost"@, v.high_boost);
            let s = lemma_matched_optional::<Numeral>(m, s, "low_boost"@, v.low_boost);
            let s = lemma_matched_optional::<LoudnessFader>(m, s, "fader"@, v.fader);
            let s = lemma_matched_optional::<bool>(m, s, "attenuate_mid"@, v.attenuate_mid);
            assert(s =~= Self::slots(v));
            lemma_slot_names(s, Self::names());
            lemma_alike_slots(m, s, Self::names());
        }
    }
}

/// A delay.
#[derive(Clone, Debug, PartialEq, Eq)]
pub struct DelayParameters {
    pub delay: Numeral,
    pub unit: Option<TimeUnit>,
    pub subsample: Option<bool>,
}

/// The mathematical value of a [`DelayParameters`].
pub struct DelayParametersView {
    pub delay: NumeralView,
    pub unit: Option<TimeUnit>,
    pub subsample: Option<bool>,
}

impl DeepView for DelayParameters {
    type V = DelayParametersView;

    open spec fn deep_view(&self) -> DelayParametersView {
        DelayParametersView {
            delay: self.delay.deep_view(),
            unit: self.unit.deep_view(),
            subsample: self.subsample.deep_view(),
        }
    }
}

impl DelayParameters {
    /// The keys that the record declares.
    pub open spec fn names() -> Seq<Seq<char>> {
        seq!["delay"@, "unit"@, "subsample"@]
    }

    /// The keys of the record are distinct, and none is the key of a discriminant.
    pub proof fn lemma_names()
        ensures
            Self::names().no_duplicates(),
            !Self::names().contains(tag_key()),
    {
        reveal_strlit("type");
        reveal_strlit("delay");
        reveal_strlit("unit");
        reveal_strlit("subsample");
        assert("type"@.len() == 4 && "type"@[0] == 't');
        assert("delay"@.len() == 5);
        assert("unit"@.len() == 4 && "unit"@[0] == 'u');
        assert("subsample"@.len() == 9);
    }
}

impl Record for DelayParameters {
    open spec fn slots(v: DelayParametersView) -> Seq<Slot> {
        seq![
            slot::<Numeral>("delay"@, v.delay),
            slot_opt::<TimeUnit>("unit"@, v.unit),
            slot_opt::<bool>("subsample"@, v.subsample),
        ]
    }

    open spec fn decode_fields(m: Entries) -> Result<DelayParametersView, Fault> {
        let delay = required::<Numeral>(m, "delay"@);
        let unit = optional::<TimeUnit>(m, "unit"@);
        let subsample = optional::<bool>(m, "subsample"@);
        if let Some(e) = unknown_field(m, Self::names()) {
            Err(e)
        } else if delay is Err {
            Err(delay->Err_0)
        } else if unit is Err {
            Err(unit->Err_0)
        } else if subsample is Err {
            Err(subsample->Err_0)
        } else {
            Ok(
                DelayParametersView {
                    delay: delay->Ok_0,
                    unit: unit->Ok_0,
                    subsample: subsample->Ok_0,
                },
            )
        }
    }

    fn read_fields(f: &Fields) -> (r: Result<DelayParameters, SchemaError>) {
        let known = vec!["delay", "unit", "subsample"];
        proof {
            assert(texts(known@) =~= Self::names());
        }
        f.deny_unknown(&known)?;
        let delay = f.required::<Numeral>("delay")?;
        let unit = f.optional::<TimeUnit>("unit")?;
        let subsample = f.optional::<bool>("subsample")?;
        Ok(DelayParameters { delay, unit, subsample })
    }

    fn write_fields(&self, w: Writer) -> (r: Writer) {
        let ghost before = w.slots();
        let w = w.put::<Numeral>("delay", &self.delay);
        let w = w.put_opt::<TimeUnit>("unit", &self.unit);
        let w = w.put_opt::<bool>("subsample", &self.subsample);
        proof {
            assert(w.slots() =~= before + Self::slots(self.deep_view()));
        }
        w
    }

    proof fn lemma_fields(v: DelayParametersView) {
        Self::lemma_names();
        let s = Self::slots(v);
        lemma_slot_names(s, Self::names());
        lemma_present_known(s, Self::names());
        lemma_required::<Numeral>(s, 0, "delay"@, v.delay);
        lemma_optional::<TimeUnit>(s, 1, "unit"@, v.unit);
        lemma_optional::<bool>(s, 2, "subsample"@, v.subsample);
    }

    proof fn lemma_fields_faithful(m: Entries) {
        if let Ok(v) = Self::decode_fields(m) {
            Self::lemma_names();
            lemma_unknown_field(m, Self::names());
            let s = lemma_matched_none(m);
            let s = lemma_matched_required::<Numeral>(m, s, "delay"@, v.delay);
            let s = lemma_matched_optional::<TimeUnit>(m, s, "unit"@, v.unit);
            let s = lemma_matched_optional::<bool>(m, s, "subsample"@, v.subsample);
            assert(s =~= Self::slots(v));
            lemma_slot_names(s, Self::names());
            lemma_alike_slots(m, s, Self::names());
        }
    }
}

/// Dither, by the curve that shapes its noise.
#[derive(Clone, Debug, PartialEq, Eq)]
pub enum DitherParameters {
    NoDither { bits: usize },
    Flat { bits: usize, amplitude: Numeral },
    Highpass { bits: usize },
    Fweighted441 { bits: usize },
    FweightedLong441 { bits: usize },
    FweightedShort441 { bits: usize },
    Gesemann441 { bits: usize },
    Gesemann48 { bits: usize },
    Lipshitz441 { bits: usize },
    LipshitzLong441 { bits: usize },
    Shibata441 { bits: usize },
    ShibataHigh441 { bits: usize },
    ShibataLow441 { bits: usize },
    Shibata48 { bits: usize },
    ShibataHigh48 { bits: usize },
    ShibataLow48 { bits: usize },
    Shibata882 { bits: usize },
    ShibataLow882 { bits: usize },
    Shibata96 { bits: usize },
    ShibataLow96 { bits: usize },
    Shibata192 { bits: usize },
    ShibataLow192 { bits: usize },
}

/// The mathematical value of a [`DitherParameters`].
pub enum DitherParametersView {
    NoDither { bits: usize },
    Flat { bits: usize, amplitude: NumeralView },
    Highpass { bits: usize },
    Fweighted441 { bits: usize },
    FweightedLong441 { bits: usize },
    FweightedShort441 { bits: usize },
    Gesemann441 { bits: usize },
    Gesemann48 { bits: usize },
    Lipshitz441 { bits: usize },
    LipshitzLong441 { bits: usize },
    Shibata441 { bits: usize },
    ShibataHigh441 { bits: usize },
    ShibataLow441 { bits: usize },
    Shibata48 { bits: usize },
    ShibataHigh48 { bits: usize },
    ShibataLow48 { bits: usize },
    Shibata882 { bits: usize },
    ShibataLow882 { bits: usize },
    Shibata96 { bits: usize },
    ShibataLow96 { bits: usize },
    Shibata192 { bits: usize },
    ShibataLow192 { bits: usize },
}

/// The discriminants of [`DitherParameters`].
#[derive(Clone, Copy, Debug, PartialEq, Eq)]
pub enum DitherParametersKind {
    NoDither,
    Flat,
    Highpass,
    Fweighted441,
    FweightedLong441,
    FweightedShort441,
    Gesemann441,
    Gesemann48,
    Lipshitz441,
    LipshitzLong441,
    Shibata441,
    ShibataHigh441,
    ShibataLow441,
    Shibata48,
    ShibataHigh48,
    ShibataLow48,
    Shibata882,
    ShibataLow882,
    Shibata96,
    ShibataLow96,
    Shibata192,
    ShibataLow192,
}

impl Spelled for DitherParametersKind {
    open spec fn name(self) -> Seq<char> {
        match self {
            DitherParametersKind::NoDither => "None"@,
            DitherParametersKind::Flat => "Flat"@,
            DitherParametersKind::Highpass => "Highpass"@,
            DitherParametersKind::Fweighted441 => "Fweighted441"@,
            DitherParametersKind::FweightedLong441 => "FweightedLong441"@,
            DitherParametersKind::FweightedShort441 => "FweightedShort441"@,
            DitherParametersKind::Gesemann441 => "Gesemann441"@,
            DitherParametersKind::Gesemann48 => "Gesemann48"@,
            DitherParametersKind::Lipshitz441 => "Lipshitz441"@,
            DitherParametersKind::LipshitzLong441 => "LipshitzLong441"@,
            DitherParametersKind::Shibata441 => "Shibata441"@,
            DitherParametersKind::ShibataHigh441 => "ShibataHigh441"@,
            DitherParametersKind::ShibataLow441 => "ShibataLow441"@,
            DitherParametersKind::Shibata48 => "Shibata48"@,
            DitherParametersKind::ShibataHigh48 => "ShibataHigh48"@,
            DitherParametersKind::ShibataLow48 => "ShibataLow48"@,
            DitherParametersKind::Shibata882 => "Shibata882"@,
            DitherParametersKind::ShibataLow882 => "ShibataLow882"@,
            DitherParametersKind::Shibata96 => "Shibata96"@,
            DitherParametersKind::ShibataLow96 => "ShibataLow96"@,
            DitherParametersKind::Shibata192 => "Shibata192"@,
            DitherParametersKind::ShibataLow192 => "ShibataLow192"@,
        }
    }

    open spec fn named(t: Seq<char>) -> Option<DitherParametersKind> {
        if t == "None"@ {
            Some(DitherParametersKind::NoDither)
        } else if t == "Flat"@ {
            Some(DitherParametersKind::Flat)
        } else if t == "Highpass"@ {
            Some(DitherParametersKind::Highpass)
        } else if t == "Fweighted441"@ {
            Some(DitherParametersKind::Fweighted441)
        } else if t == "FweightedLong441"@ {
            Some(DitherParametersKind::FweightedLong441)
        } else if t == "FweightedShort441"@ {
            Some(DitherParametersKind::FweightedShort441)
        } else if t == "Gesemann441"@ {
            Some(DitherParametersKind::Gesemann441)
        } else if t == "Gesemann48"@ {
            Some(DitherParametersKind::Gesemann48)
        } else if t == "Lipshitz441"@ {
            Some(DitherParametersKind::Lipshitz441)
        } else if t == "LipshitzLong441"@ {
            Some(DitherParametersKind::LipshitzLong441)
        } else if t == "Shibata441"@ {
            Some(DitherParametersKind::Shibata441)
        } else if t == "ShibataHigh441"@ {
            Some(DitherParametersKind::ShibataHigh441)
        } else if t == "ShibataLow441"@ {
            Some(DitherParametersKind::ShibataLow441)
        } else if t == "Shibata48"@ {
            Some(DitherParametersKind::Shibata48)
        } else if t == "ShibataHigh48"@ {
            Some(DitherParametersKind::ShibataHigh48)
        } else if t == "ShibataLow48"@ {
            Some(DitherParametersKind::ShibataLow48)
        } else if t == "Shibata882"@ {
            Some(DitherParametersKind::Shibata882)
        } else if t == "ShibataLow882"@ {
            Some(DitherParametersKind::ShibataLow882)
        } else if t == "Shibata96"@ {
            Some(DitherParametersKind::Shibata96)
        } else if t == "ShibataLow96"@ {
            Some(DitherParametersKind::ShibataLow96)
        } else if t == "Shibata192"@ {
            Some(DitherParametersKind::Shibata192)
        } else if t == "ShibataLow192"@ {
            Some(DitherParametersKind::ShibataLow192)
        } else {
            None
        }
    }

    fn as_str(&self) -> (r: &'static str) {
        match self {
            DitherParametersKind::NoDither => "None",
            DitherParametersKind::Flat => "Flat",
            DitherParametersKind::Highpass => "Highpass",
            DitherParametersKind::Fweighted441 => "Fweighted441",
            DitherParametersKind::FweightedLong441 => "FweightedLong441",
            DitherParametersKind::FweightedShort441 => "FweightedShort441",
            DitherParametersKind::Gesemann441 => "Gesemann441",
            DitherParametersKind::Gesemann48 => "Gesemann48",
            DitherParametersKind::Lipshitz441 => "Lipshitz441",
            DitherParametersKind::LipshitzLong441 => "LipshitzLong441",
            DitherParametersKind::Shibata441 => "Shibata441",
            DitherParametersKind::ShibataHigh441 => "ShibataHigh441",
            DitherParametersKind::ShibataLow441 => "ShibataLow441",
            DitherParametersKind::Shibata48 => "Shibata48",
            DitherParametersKind::ShibataHigh48 => "ShibataHigh48",
            DitherParametersKind::ShibataLow48 => "ShibataLow48",
            DitherParametersKind::Shibata882 => "Shibata882",
            DitherParametersKind::ShibataLow882 => "ShibataLow882",
            DitherParametersKind::Shibata96 => "Shibata96",
            DitherParametersKind::ShibataLow96 => "ShibataLow96",
            DitherParametersKind::Shibata192 => "Shibata192",
            DitherParametersKind::ShibataLow192 => "ShibataLow192",
        }
    }

    fn from_name(t: &str) -> (r: Option<DitherParametersKind>) {
        if same_text(t, "None") {
            Some(DitherParametersKind::NoDither)
        } else if same_text(t, "Flat") {
            Some(DitherParametersKind::Flat)
        } else if same_text(t, "Highpass") {
            Some(DitherParametersKind::Highpass)
        } else if same_text(t, "Fweighted441") {
            Some(DitherParametersKind::Fweighted441)
        } else if same_text(t, "FweightedLong441") {
            Some(DitherParametersKind::FweightedLong441)
        } else if same_text(t, "FweightedShort441") {
            Some(DitherParametersKind::FweightedShort441)
        } else if same_text(t, "Gesemann441") {
            Some(DitherParametersKind::Gesemann441)
        } else if same_text(t, "Gesemann48") {
            Some(DitherParametersKind::Gesemann48)
        } else if same_text(t, "Lipshitz441") {
            Some(DitherParametersKind::Lipshitz441)
        } else if same_text(t, "LipshitzLong441") {
            Some(DitherParametersKind::LipshitzLong441)
        } else if same_text(t, "Shibata441") {
            Some(DitherParametersKind::Shibata441)
        } else if same_text(t, "ShibataHigh441") {
            Some(DitherParametersKind::ShibataHigh441)
        } else if same_text(t, "ShibataLow441") {
            Some(DitherParametersKind::ShibataLow441)
        } else if same_text(t, "Shibata48") {
            Some(DitherParametersKind::Shibata48)
        } else if same_text(t, "ShibataHigh48") {
            Some(DitherParametersKind::ShibataHigh48)
        } else if same_text(t, "ShibataLow48") {
            Some(DitherParametersKind::ShibataLow48)
        } else if same_text(t, "Shibata882") {
            Some(DitherParametersKind::Shibata882)
        } else if same_text(t, "ShibataLow882") {
            Some(DitherParametersKind::ShibataLow882)
        } else if same_text(t, "Shibata96") {
            Some(DitherParametersKind::Shibata96)
        } else if same_text(t, "ShibataLow96") {
            Some(DitherParametersKind::ShibataLow96)
        } else if same_text(t, "Shibata192") {
            Some(DitherParametersKind::Shibata192)
        } else if same_text(t, "ShibataLow192") {
            Some(DitherParametersKind::ShibataLow192)
        } else {
            None
        }
    }

    proof fn lemma_named(self) {
        reveal_strlit("None");
        reveal_strlit("Flat");
        reveal_strlit("Highpass");
        reveal_strlit("Fweighted441");
        reveal_strlit("FweightedLong441");
        reveal_strlit("FweightedShort441");
        reveal_strlit("Gesemann441");
        reveal_strlit("Gesemann48");
        reveal_strlit("Lipshitz441");
        reveal_strlit("LipshitzLong441");
        reveal_strlit("Shibata441");
        reveal_strlit("ShibataHigh441");
        reveal_strlit("ShibataLow441");
        reveal_strlit("Shibata48");
        reveal_strlit("ShibataHigh48");
        reveal_strlit("ShibataLow48");
        reveal_strlit("Shibata882");
        reveal_strlit("ShibataLow882");
        reveal_strlit("Shibata96");
        reveal_strlit("ShibataLow96");
        reveal_strlit("Shibata192");
        reveal_strlit("ShibataLow192");
        assert("None"@.len() == 4 && "None"@[0] == 'N');
        assert("Flat"@.len() == 4 && "Flat"@[0] == 'F');
        assert("Highpass"@.len() == 8);
        assert("Fweighted441"@.len() == 12 && "Fweighted441"@[0] == 'F');
        assert("FweightedLong441"@.len() == 16);
        assert("FweightedShort441"@.len() == 17);
        assert("Gesemann441"@.len() == 11 && "Gesemann441"@[0] == 'G');
        assert("Gesemann48"@.len() == 10 && "Gesemann48"@[0] == 'G');
        assert("Lipshitz441"@.len() == 11 && "Lipshitz441"@[0] == 'L');
        assert("LipshitzLong441"@.len() == 15);
        assert("Shibata441"@.len() == 10 && "Shibata441"@[0] == 'S' && "Shibata441"@[7] == '4');
        assert("ShibataHigh441"@.len() == 14);
        assert("ShibataLow441"@.len() == 13 && "ShibataLow441"@[7] == 'L' && "ShibataLow441"@[10] == '4');
        assert("Shibata48"@.len() == 9 && "Shibata48"@[7] == '4');
        assert("ShibataHigh48"@.len() == 13 && "ShibataHigh48"@[7] == 'H');
        assert("ShibataLow48"@.len() == 12 && "ShibataLow48"@[0] == 'S' && "ShibataLow48"@[10] == '4');
        assert("Shibata882"@.len() == 10 && "Shibata882"@[0] == 'S' && "Shibata882"@[7] == '8');
        assert("ShibataLow882"@.len() == 13 && "ShibataLow882"@[7] == 'L' && "ShibataLow882"@[10] == '8');
        assert("Shibata96"@.len() == 9 && "Shibata96"@[7] == '9');
        assert("ShibataLow96"@.len() == 12 && "ShibataLow96"@[0] == 'S' && "ShibataLow96"@[10] == '9');
        assert("Shibata192"@.len() == 10 && "Shibata192"@[0] == 'S' && "Shibata192"@[7] == '1');
        assert("ShibataLow192"@.len() == 13 && "ShibataLow192"@[7] == 'L' && "ShibataLow192"@[10] == '1');
    }
}

impl DeepView for DitherParameters {
    type V = DitherParametersView;

    open spec fn deep_view(&self) -> DitherParametersView {
        match self {
            DitherParameters::NoDither { bits } => DitherParametersView::NoDither {
                bits: bits.deep_view(),
            },
            DitherParameters::Flat { bits, amplitude } => DitherParametersView::Flat {
                bits: bits.deep_view(),
                amplitude: amplitude.deep_view(),
            },
            DitherParameters::Highpass { bits } => DitherParametersView::Highpass {
                bits: bits.deep_view(),
            },
            DitherParameters::Fweighted441 { bits } => DitherParametersView::Fweighted441 {
                bits: bits.deep_view(),
            },
            DitherParameters::FweightedLong441 { bits } => DitherParametersView::FweightedLong441 {
                bits: bits.deep_view(),
            },
            DitherParameters::FweightedShort441 { bits } => DitherParametersView::FweightedShort441 {
                bits: bits.deep_view(),
            },
            DitherParameters::Gesemann441 { bits } => DitherParametersView::Gesemann441 {
                bits: bits.deep_view(),
            },
            DitherParameters::Gesemann48 { bits } => DitherParametersView::Gesemann48 {
                bits: bits.deep_view(),
            },
            DitherParameters::Lipshitz441 { bits } => DitherParametersView::Lipshitz441 {
                bits: bits.deep_view(),
            },
            DitherParameters::LipshitzLong441 { bits } => DitherParametersView::LipshitzLong441 {
                bits: bits.deep_view(),
            },
            DitherParameters::Shibata441 { bits } => DitherParametersView::Shibata441 {
                bits: bits.deep_view(),
            },
            DitherParameters::ShibataHigh441 { bits } => DitherParametersView::ShibataHigh441 {
                bits: bits.deep_view(),
            },
            DitherParameters::ShibataLow441 { bits } => DitherParametersView::ShibataLow441 {
                bits: bits.deep_view(),
            },
            DitherParameters::Shibata48 { bits } => DitherParametersView::Shibata48 {
                bits: bits.deep_view(),
            },
            DitherParameters::ShibataHigh48 { bits } => DitherParametersView::ShibataHigh48 {
                bits: bits.deep_view(),
            },
            DitherParameters::ShibataLow48 { bits } => DitherParametersView::ShibataLow48 {
                bits: bits.deep_view(),
            },
            DitherParameters::Shibata882 { bits } => DitherParametersView::Shibata882 {
                bits: bits.deep_view(),
            },
            DitherParameters::ShibataLow882 { bits } => DitherParametersView::ShibataLow882 {
                bits: bits.deep_view(),
            },
            DitherParameters::Shibata96 { bits } => DitherParametersView::Shibata96 {
                bits: bits.deep_view(),
            },
            DitherParameters::ShibataLow96 { bits } => DitherParametersView::ShibataLow96 {
                bits: bits.deep_view(),
            },
            DitherParameters::Shibata192 { bits } => DitherParametersView::Shibata192 {
                bits: bits.deep_view(),
            },
            DitherParameters::ShibataLow192 { bits } => DitherParametersView::ShibataLow192 {
                bits: bits.deep_view(),
            },
        }
    }
}

impl DitherParameters {
    /// The keys that a variant with the fields `bits` declares.
    pub open spec fn names_bits() -> Seq<Seq<char>> {
        seq!["bits"@]
    }

    /// The keys of a variant with the fields `bits` are distinct, and none is the key of a discriminant.
    pub proof fn lemma_names_bits()
        ensures
            Self::names_bits().no_duplicates(),
            !Self::names_bits().contains(tag_key()),
    {
        reveal_strlit("type");
        reveal_strlit("bits");
        assert("type"@.len() == 4 && "type"@[0] == 't');
        assert("bits"@.len() == 4 && "bits"@[0] == 'b');
    }

    /// What a variant with the fields `bits` writes: one slot for each field.
    pub open spec fn slots_bits(bits: usize) -> Seq<Slot> {
        seq![
            slot::<usize>("bits"@, bits),
        ]
    }

    /// What entries stand for, read as a variant with the fields `bits`.
    pub open spec fn decode_bits(m: Entries) -> Result<usize, Fault> {
        let bits = required::<usize>(m, "bits"@);
        if let Some(e) = unknown_field(m, Self::names_bits()) {
            Err(e)
        } else if bits is Err {
            Err(bits->Err_0)
        } else {
            Ok(bits->Ok_0)
        }
    }

    /// Reads a variant with the fields `bits`.
    pub fn read_bits(f: &Fields) -> (r: Result<usize, SchemaError>)
        ensures
            r matches Ok(x) ==> Self::decode_bits(f@) == Ok::<usize, Fault>(x.deep_view()),
            r matches Err(e) ==> Self::decode_bits(f@) == Err::<usize, Fault>(e.deep_view()),
    {
        let known = vec!["bits"];
        proof {
            assert(texts(known@) =~= Self::names_bits());
        }
        f.deny_unknown(&known)?;
        let bits = f.required::<usize>("bits")?;
        Ok(bits)
    }

    /// Writes the fields of a variant with the fields `bits` after what `w` holds.
    pub fn write_bits(w: Writer, bits: &usize) -> (r: Writer)
        ensures
            r.slots() == w.slots() + Self::slots_bits(bits.deep_view()),
    {
        let ghost before = w.slots();
        let w = w.put::<usize>("bits", bits);
        proof {
            assert(w.slots() =~= before + Self::slots_bits(bits.deep_view()));
        }
        w
    }

    /// Reading what a variant with the fields `bits` wrote gives the fields back.
    pub proof fn lemma_bits(bits: usize)
        ensures
            distinct_names(Self::slots_bits(bits)),
            !names_slot(Self::slots_bits(bits), tag_key()),
            Self::decode_bits(present(Self::slots_bits(bits))) == Ok::<usize, Fault>(bits),
    {
        Self::lemma_names_bits();
        let s = Self::slots_bits(bits);
        lemma_slot_names(s, Self::names_bits());
        lemma_present_known(s, Self::names_bits());
        lemma_required::<usize>(s, 0, "bits"@, bits);
    }

    /// What a variant with the fields `bits` writes is like any entries that its fields were read from.
    pub proof fn lemma_like_bits(m: Entries)
        requires
            distinct_keys(m),
        ensures
            Self::decode_bits(m) matches Ok(bits) ==> alike_entries(
                m,
                present(Self::slots_bits(bits)),
            ),
    {
        if let Ok(bits) = Self::decode_bits(m) {
            Self::lemma_names_bits();
            lemma_unknown_field(m, Self::names_bits());
            let s = lemma_matched_none(m);
            let s = lemma_matched_required::<usize>(m, s, "bits"@, bits);
            assert(s =~= Self::slots_bits(bits));
            lemma_slot_names(s, Self::names_bits());
            lemma_alike_slots(m, s, Self::names_bits());
        }
    }

    /// The keys that the variant `Flat` declares.
    pub open spec fn names_flat() -> Seq<Seq<char>> {
        seq!["bits"@, "amplitude"@]
    }

    /// The keys of the variant `Flat` are distinct, and none is the key of a discriminant.
    pub proof fn lemma_names_flat()
        ensures
            Self::names_flat().no_duplicates(),
            !Self::names_flat().contains(tag_key()),
    {
        reveal_strlit("type");
        reveal_strlit("bits");
        reveal_strlit("amplitude");
        assert("type"@.len() == 4 && "type"@[0] == 't');
        assert("bits"@.len() == 4 && "bits"@[0] == 'b');
        assert("amplitude"@.len() == 9);
    }

    /// What the variant `Flat` writes: one slot for each field.
    pub open spec fn slots_flat(bits: usize, amplitude: NumeralView) -> Seq<Slot> {
        seq![
            slot::<usize>("bits"@, bits),
            slot::<Numeral>("amplitude"@, amplitude),
        ]
    }

    /// What entries stand for, read as the variant `Flat`.
    pub open spec fn decode_flat(m: Entries) -> Result<DitherParametersView, Fault> {
        let bits = required::<usize>(m, "bits"@);
        let amplitude = required::<Numeral>(m, "amplitude"@);
        if let Some(e) = unknown_field(m, Self::names_flat()) {
            Err(e)
        } else if bits is Err {
            Err(bits->Err_0)
        } else if amplitude is Err {
            Err(amplitude->Err_0)
        } else {
            Ok(DitherParametersView::Flat { bits: bits->Ok_0, amplitude: amplitude->Ok_0 })
        }
    }

    /// Reads the variant `Flat`.
    pub fn read_flat(f: &Fields) -> (r: Result<DitherParameters, SchemaError>)
        ensures
            r matches Ok(x) ==> Self::decode_flat(f@) == Ok::<DitherParametersView, Fault>(x.deep_view()),
            r matches Err(e) ==> Self::decode_flat(f@) == Err::<DitherParametersView, Fault>(e.deep_view()),
    {
        let known = vec!["bits", "amplitude"];
        proof {
            assert(texts(known@) =~= Self::names_flat());
        }
        f.deny_unknown(&known)?;
        let bits = f.required::<usize>("bits")?;
        let amplitude = f.required::<Numeral>("amplitude")?;
        Ok(DitherParameters::Flat { bits, amplitude })
    }

    /// Writes the fields of the variant `Flat` after what `w` holds.
    pub fn write_flat(w: Writer, bits: &usize, amplitude: &Numeral) -> (r: Writer)
        ensures
            r.slots() == w.slots() + Self::slots_flat(bits.deep_view(), amplitude.deep_view()),
    {
        let ghost before = w.slots();
        let w = w.put::<usize>("bits", bits);
        let w = w.put::<Numeral>("amplitude", amplitude);
        proof {
            assert(w.slots() =~= before + Self::slots_flat(bits.deep_view(), amplitude.deep_view()));
        }
        w
    }

    /// Reading what the variant `Flat` wrote gives the fields back.
    pub proof fn lemma_flat(bits: usize, amplitude: NumeralView)
        ensures
            distinct_names(Self::slots_flat(bits, amplitude)),
            !names_slot(Self::slots_flat(bits, amplitude), tag_key()),
            Self::decode_flat(present(Self::slots_flat(bits, amplitude))) == Ok::<DitherParametersView, Fault>(
                DitherParametersView::Flat { bits: bits, amplitude: amplitude },
            ),
    {
        Self::lemma_names_flat();
        let s = Self::slots_flat(bits, amplitude);
        lemma_slot_names(s, Self::names_flat());
        lemma_present_known(s, Self::names_flat());
        lemma_required::<usize>(s, 0, "bits"@, bits);
        lemma_required::<Numeral>(s, 1, "amplitude"@, amplitude);
    }

    /// What the variant `Flat` writes is like any entries that its fields were read from.
    pub proof fn lemma_like_flat(m: Entries)
        requires
            distinct_keys(m),
        ensures
            Self::decode_flat(m) matches Ok(DitherParametersView::Flat { bits, amplitude }) ==> alike_entries(
                m,
                present(Self::slots_flat(bits, amplitude)),
            ),
    {
        if let Ok(DitherParametersView::Flat { bits, amplitude }) = Self::decode_flat(m) {
            Self::lemma_names_flat();
            lemma_unknown_field(m, Self::names_flat());
            let s = lemma_matched_none(m);
            let s = lemma_matched_required::<usize>(m, s, "bits"@, bits);
            let s = lemma_matched_required::<Numeral>(m, s, "amplitude"@, amplitude);
            assert(s =~= Self::slots_flat(bits, amplitude));
            lemma_slot_names(s, Self::names_flat());
            lemma_alike_slots(m, s, Self::names_flat());
        }
    }

    /// The discriminant of a value.
    pub open spec fn kind_of(v: DitherParametersView) -> DitherParametersKind {
        match v {
            DitherParametersView::NoDither { .. } => DitherParametersKind::NoDither,
            DitherParametersView::Flat { .. } => DitherParametersKind::Flat,
            DitherParametersView::Highpass { .. } => DitherParametersKind::Highpass,
            DitherParametersView::Fweighted441 { .. } => DitherParametersKind::Fweighted441,
            DitherParametersView::FweightedLong441 { .. } => DitherParametersKind::FweightedLong441,
            DitherParametersView::FweightedShort441 { .. } => DitherParametersKind::FweightedShort441,
            DitherParametersView::Gesemann441 { .. } => DitherParametersKind::Gesemann441,
            DitherParametersView::Gesemann48 { .. } => DitherParametersKind::Gesemann48,
            DitherParametersView::Lipshitz441 { .. } => DitherParametersKind::Lipshitz441,
            DitherParametersView::LipshitzLong441 { .. } => DitherParametersKind::LipshitzLong441,
            DitherParametersView::Shibata441 { .. } => DitherParametersKind::Shibata441,
            DitherParametersView::ShibataHigh441 { .. } => DitherParametersKind::ShibataHigh441,
            DitherParametersView::ShibataLow441 { .. } => DitherParametersKind::ShibataLow441,
            DitherParametersView::Shibata48 { .. } => DitherParametersKind::Shibata48,
            DitherParametersView::ShibataHigh48 { .. } => DitherParametersKind::ShibataHigh48,
            DitherParametersView::ShibataLow48 { .. } => DitherParametersKind::ShibataLow48,
            DitherParametersView::Shibata882 { .. } => DitherParametersKind::Shibata882,
            DitherParametersView::ShibataLow882 { .. } => DitherParametersKind::ShibataLow882,
            DitherParametersView::Shibata96 { .. } => DitherParametersKind::Shibata96,
            DitherParametersView::ShibataLow96 { .. } => DitherParametersKind::ShibataLow96,
            DitherParametersView::Shibata192 { .. } => DitherParametersKind::Shibata192,
            DitherParametersView::ShibataLow192 { .. } => DitherParametersKind::ShibataLow192,
        }
    }

    /// What a value writes beside its discriminant.
    pub open spec fn variant_slots(v: DitherParametersView) -> Seq<Slot> {
        match v {
            DitherParametersView::NoDither { bits } => Self::slots_bits(bits),
            DitherParametersView::Flat { bits, amplitude } => Self::slots_flat(bits, amplitude),
            DitherParametersView::Highpass { bits } => Self::slots_bits(bits),
            DitherParametersView::Fweighted441 { bits } => Self::slots_bits(bits),
            DitherParametersView::FweightedLong441 { bits } => Self::slots_bits(bits),
            DitherParametersView::FweightedShort441 { bits } => Self::slots_bits(bits),
            DitherParametersView::Gesemann441 { bits } => Self::slots_bits(bits),
            DitherParametersView::Gesemann48 { bits } => Self::slots_bits(bits),
            DitherParametersView::Lipshitz441 { bits } => Self::slots_bits(bits),
            DitherParametersView::LipshitzLong441 { bits } => Self::slots_bits(bits),
            DitherParametersView::Shibata441 { bits } => Self::slots_bits(bits),
            DitherParametersView::ShibataHigh441 { bits } => Self::slots_bits(bits),
            DitherParametersView::ShibataLow441 { bits } => Self::slots_bits(bits),
            DitherParametersView::Shibata48 { bits } => Self::slots_bits(bits),
            DitherParametersView::ShibataHigh48 { bits } => Self::slots_bits(bits),
            DitherParametersView::ShibataLow48 { bits } => Self::slots_bits(bits),
            DitherParametersView::Shibata882 { bits } => Self::slots_bits(bits),
            DitherParametersView::ShibataLow882 { bits } => Self::slots_bits(bits),
            DitherParametersView::Shibata96 { bits } => Self::slots_bits(bits),
            DitherParametersView::ShibataLow96 { bits } => Self::slots_bits(bits),
            DitherParametersView::Shibata192 { bits } => Self::slots_bits(bits),
            DitherParametersView::ShibataLow192 { bits } => Self::slots_bits(bits),
        }
    }

    /// The value that entries stand for, read as the variant that `k` selects.
    pub open spec fn decode_variant(k: DitherParametersKind, m: Entries) -> Result<DitherParametersView, Fault> {
        match k {
            DitherParametersKind::NoDither => match Self::decode_bits(m) {
                Ok(bits) => Ok(DitherParametersView::NoDither { bits }),
                Err(e) => Err(e),
            },
            DitherParametersKind::Flat => Self::decode_flat(m),
            DitherParametersKind::Highpass => match Self::decode_bits(m) {
                Ok(bits) => Ok(DitherParametersView::Highpass { bits }),
                Err(e) => Err(e),
            },
            DitherParametersKind::Fweighted441 => match Self::decode_bits(m) {
                Ok(bits) => Ok(DitherParametersView::Fweighted441 { bits }),
                Err(e) => Err(e),
            },
            DitherParametersKind::FweightedLong441 => match Self::decode_bits(m) {
                Ok(bits) => Ok(DitherParametersView::FweightedLong441 { bits }),
                Err(e) => Err(e),
            },
            DitherParametersKind::FweightedShort441 => match Self::decode_bits(m) {
                Ok(bits) => Ok(DitherParametersView::FweightedShort441 { bits }),
                Err(e) => Err(e),
            },
            DitherParametersKind::Gesemann441 => match Self::decode_bits(m) {
                Ok(bits) => Ok(DitherParametersView::Gesemann441 { bits }),
                Err(e) => Err(e),
            },
            DitherParametersKind::Gesemann48 => match Self::decode_bits(m) {
                Ok(bits) => Ok(DitherParametersView::Gesemann48 { bits }),
                Err(e) => Err(e),
            },
            DitherParametersKind::Lipshitz441 => match Self::decode_bits(m) {
                Ok(bits) => Ok(DitherParametersView::Lipshitz441 { bits }),
                Err(e) => Err(e),
            },
            DitherParametersKind::LipshitzLong441 => match Self::decode_bits(m) {
                Ok(bits) => Ok(DitherParametersView::LipshitzLong441 { bits }),
                Err(e) => Err(e),
            },
            DitherParametersKind::Shibata441 => match Self::decode_bits(m) {
                Ok(bits) => Ok(DitherParametersView::Shibata441 { bits }),
                Err(e) => Err(e),
            },
            DitherParametersKind::ShibataHigh441 => match Self::decode_bits(m) {
                Ok(bits) => Ok(DitherParametersView::ShibataHigh441 { bits }),
                Err(e) => Err(e),
            },
            DitherParametersKind::ShibataLow441 => match Self::decode_bits(m) {
                Ok(bits) => Ok(DitherParametersView::ShibataLow441 { bits }),
                Err(e) => Err(e),
            },
            DitherParametersKind::Shibata48 => match Self::decode_bits(m) {
                Ok(bits) => Ok(DitherParametersView::Shibata48 { bits }),
                Err(e) => Err(e),
            },
            DitherParametersKind::ShibataHigh48 => match Self::decode_bits(m) {
                Ok(bits) => Ok(DitherParametersView::ShibataHigh48 { bits }),
                Err(e) => Err(e),
            },
            DitherParametersKind::ShibataLow48 => match Self::decode_bits(m) {
                Ok(bits) => Ok(DitherParametersView::ShibataLow48 { bits }),
                Err(e) => Err(e),
            },
            DitherParametersKind::Shibata882 => match Self::decode_bits(m) {
                Ok(bits) => Ok(DitherParametersView::Shibata882 { bits }),
                Err(e) => Err(e),
            },
            DitherParametersKind::ShibataLow882 => match Self::decode_bits(m) {
                Ok(bits) => Ok(DitherParametersView::ShibataLow882 { bits }),
                Err(e) => Err(e),
            },
            DitherParametersKind::Shibata96 => match Self::decode_bits(m) {
                Ok(bits) => Ok(DitherParametersView::Shibata96 { bits }),
                Err(e) => Err(e),
            },
            DitherParametersKind::ShibataLow96 => match Self::decode_bits(m) {
                Ok(bits) => Ok(DitherParametersView::ShibataLow96 { bits }),
                Err(e) => Err(e),
            },
            DitherParametersKind::Shibata192 => match Self::decode_bits(m) {
                Ok(bits) => Ok(DitherParametersView::Shibata192 { bits }),
                Err(e) => Err(e),
            },
            DitherParametersKind::ShibataLow192 => match Self::decode_bits(m) {
                Ok(bits) => Ok(DitherParametersView::ShibataLow192 { bits }),
                Err(e) => Err(e),
            },
        }
    }
}

impl Schema for DitherParameters {
    open spec fn decode(n: NodeView) -> Result<DitherParametersView, Fault> {
        decode_tagged(n, |k: DitherParametersKind, m: Entries| Self::decode_variant(k, m))
    }

    open spec fn encode(v: DitherParametersView) -> NodeView {
        tagged_node(Self::kind_of(v).name(), Self::variant_slots(v))
    }

    fn from_node(n: &Node) -> (r: Result<DitherParameters, SchemaError>) {
        let f = Fields::of(n)?;
        let (k, rest) = f.tagged::<DitherParametersKind>()?;
        match k {
            DitherParametersKind::NoDither => match Self::read_bits(&rest) {
                Ok(bits) => Ok(DitherParameters::NoDither { bits }),
                Err(e) => Err(e),
            },
            DitherParametersKind::Flat => Self::read_flat(&rest),
            DitherParametersKind::Highpass => match Self::read_bits(&rest) {
                Ok(bits) => Ok(DitherParameters::Highpass { bits }),
                Err(e) => Err(e),
            },
            DitherParametersKind::Fweighted441 => match Self::read_bits(&rest) {
                Ok(bits) => Ok(DitherParameters::Fweighted441 { bits }),
                Err(e) => Err(e),
            },
            DitherParametersKind::FweightedLong441 => match Self::read_bits(&rest) {
                Ok(bits) => Ok(DitherParameters::FweightedLong441 { bits }),
                Err(e) => Err(e),
            },
            DitherParametersKind::FweightedShort441 => match Self::read_bits(&rest) {
                Ok(bits) => Ok(DitherParameters::FweightedShort441 { bits }),
                Err(e) => Err(e),
            },
            DitherParametersKind::Gesemann441 => match Self::read_bits(&rest) {
                Ok(bits) => Ok(DitherParameters::Gesemann441 { bits }),
                Err(e) => Err(e),
            },
            DitherParametersKind::Gesemann48 => match Self::read_bits(&rest) {
                Ok(bits) => Ok(DitherParameters::Gesemann48 { bits }),
                Err(e) => Err(e),
            },
            DitherParametersKind::Lipshitz441 => match Self::read_bits(&rest) {
                Ok(bits) => Ok(DitherParameters::Lipshitz441 { bits }),
                Err(e) => Err(e),
            },
            DitherParametersKind::LipshitzLong441 => match Self::read_bits(&rest) {
                Ok(bits) => Ok(DitherParameters::LipshitzLong441 { bits }),
                Err(e) => Err(e),
            },
            DitherParametersKind::Shibata441 => match Self::read_bits(&rest) {
                Ok(bits) => Ok(DitherParameters::Shibata441 { bits }),
                Err(e) => Err(e),
            },
            DitherParametersKind::ShibataHigh441 => match Self::read_bits(&rest) {
                Ok(bits) => Ok(DitherParameters::ShibataHigh441 { bits }),
                Err(e) => Err(e),
            },
            DitherParametersKind::ShibataLow441 => match Self::read_bits(&rest) {
                Ok(bits) => Ok(DitherParameters::ShibataLow441 { bits }),
                Err(e) => Err(e),
            },
            DitherParametersKind::Shibata48 => match Self::read_bits(&rest) {
                Ok(bits) => Ok(DitherParameters::Shibata48 { bits }),
                Err(e) => Err(e),
            },
            DitherParametersKind::ShibataHigh48 => match Self::read_bits(&rest) {
                Ok(bits) => Ok(DitherParameters::ShibataHigh48 { bits }),
                Err(e) => Err(e),
            },
            DitherParametersKind::ShibataLow48 => match Self::read_bits(&rest) {
                Ok(bits) => Ok(DitherParameters::ShibataLow48 { bits }),
                Err(e) => Err(e),
            },
            DitherParametersKind::Shibata882 => match Self::read_bits(&rest) {
                Ok(bits) => Ok(DitherParameters::Shibata882 { bits }),
                Err(e) => Err(e),
            },
            DitherParametersKind::ShibataLow882 => match Self::read_bits(&rest) {
                Ok(bits) => Ok(DitherParameters::ShibataLow882 { bits }),
                Err(e) => Err(e),
            },
            DitherParametersKind::Shibata96 => match Self::read_bits(&rest) {
                Ok(bits) => Ok(DitherParameters::Shibata96 { bits }),
                Err(e) => Err(e),
            },
            DitherParametersKind::ShibataLow96 => match Self::read_bits(&rest) {
                Ok(bits) => Ok(DitherParameters::ShibataLow96 { bits }),
                Err(e) => Err(e),
            },
            DitherParametersKind::Shibata192 => match Self::read_bits(&rest) {
                Ok(bits) => Ok(DitherParameters::Shibata192 { bits }),
                Err(e) => Err(e),
            },
            DitherParametersKind::ShibataLow192 => match Self::read_bits(&rest) {
                Ok(bits) => Ok(DitherParameters::ShibataLow192 { bits }),
                Err(e) => Err(e),
            },
        }
    }

    fn to_node(&self) -> (n: Node) {
        let ghost v = self.deep_view();
        let w = Writer::tagged(&self.kind());
        let w = match self {
            DitherParameters::NoDither { bits } => Self::write_bits(w, bits),
            DitherParameters::Flat { bits, amplitude } => Self::write_flat(w, bits, amplitude),
            DitherParameters::Highpass { bits } => Self::write_bits(w, bits),
            DitherParameters::Fweighted441 { bits } => Self::write_bits(w, bits),
            DitherParameters::FweightedLong441 { bits } => Self::write_bits(w, bits),
            DitherParameters::FweightedShort441 { bits } => Self::write_bits(w, bits),
            DitherParameters::Gesemann441 { bits } => Self::write_bits(w, bits),
            DitherParameters::Gesemann48 { bits } => Self::write_bits(w, bits),
            DitherParameters::Lipshitz441 { bits } => Self::write_bits(w, bits),
            DitherParameters::LipshitzLong441 { bits } => Self::write_bits(w, bits),
            DitherParameters::Shibata441 { bits } => Self::write_bits(w, bits),
            DitherParameters::ShibataHigh441 { bits } => Self::write_bits(w, bits),
            DitherParameters::ShibataLow441 { bits } => Self::write_bits(w, bits),
            DitherParameters::Shibata48 { bits } => Self::write_bits(w, bits),
            DitherParameters::ShibataHigh48 { bits } => Self::write_bits(w, bits),
            DitherParameters::ShibataLow48 { bits } => Self::write_bits(w, bits),
            DitherParameters::Shibata882 { bits } => Self::write_bits(w, bits),
            DitherParameters::ShibataLow882 { bits } => Self::write_bits(w, bits),
            DitherParameters::Shibata96 { bits } => Self::write_bits(w, bits),
            DitherParameters::ShibataLow96 { bits } => Self::write_bits(w, bits),
            DitherParameters::Shibata192 { bits } => Self::write_bits(w, bits),
            DitherParameters::ShibataLow192 { bits } => Self::write_bits(w, bits),
        };
        w.finish()
    }

    proof fn lemma_round_trip(v: DitherParametersView) {
        Self::lemma_variant(v);
        lemma_tagged_round_trip(
            Self::kind_of(v),
            Self::variant_slots(v),
            |k: DitherParametersKind, m: Entries| Self::decode_variant(k, m),
        );
    }

    proof fn lemma_faithful(n: NodeView) {
        if is_record(n) {
            if let Ok(k) = tag_of::<DitherParametersKind>(entries(n)) {
                lemma_untagged_distinct::<DitherParametersKind>(n);
                Self::lemma_variant_like(k, untagged(entries(n)));
                if let Ok(v) = Self::decode_variant(k, untagged(entries(n))) {
                    Self::lemma_variant(v);
                    lemma_tagged_faithful(n, k, Self::variant_slots(v));
                }
            }
        }
    }
}

impl DitherParameters {
    /// Reading what a value writes beside its discriminant, as the variant of
    /// the value, gives the value back; its slots have distinct names, none of
    /// them the key of the discriminant.
    pub proof fn lemma_variant(v: DitherParametersView)
        ensures
            distinct_names(Self::variant_slots(v)),
            !names_slot(Self::variant_slots(v), tag_key()),
            Self::decode_variant(Self::kind_of(v), present(Self::variant_slots(v))) == Ok::<DitherParametersView, Fault>(v),
    {
        match v {
            DitherParametersView::NoDither { bits } => {
                Self::lemma_bits(bits);
            },
            DitherParametersView::Flat { bits, amplitude } => {
                Self::lemma_flat(bits, amplitude);
            },
            DitherParametersView::Highpass { bits } => {
                Self::lemma_bits(bits);
            },
            DitherParametersView::Fweighted441 { bits } => {
                Self::lemma_bits(bits);
            },
            DitherParametersView::FweightedLong441 { bits } => {
                Self::lemma_bits(bits);
            },
            DitherParametersView::FweightedShort441 { bits } => {
                Self::lemma_bits(bits);
            },
            DitherParametersView::Gesemann441 { bits } => {
                Self::lemma_bits(bits);
            },
            DitherParametersView::Gesemann48 { bits } => {
                Self::lemma_bits(bits);
            },
            DitherParametersView::Lipshitz441 { bits } => {
                Self::lemma_bits(bits);
            },
            DitherParametersView::LipshitzLong441 { bits } => {
                Self::lemma_bits(bits);
            },
            DitherParametersView::Shibata441 { bits } => {
                Self::lemma_bits(bits);
            },
            DitherParametersView::ShibataHigh441 { bits } => {
                Self::lemma_bits(bits);
            },
            DitherParametersView::ShibataLow441 { bits } => {
                Self::lemma_bits(bits);
            },
            DitherParametersView::Shibata48 { bits } => {
                Self::lemma_bits(bits);
            },
            DitherParametersView::ShibataHigh48 { bits } => {
                Self::lemma_bits(bits);
            },
            DitherParametersView::ShibataLow48 { bits } => {
                Self::lemma_bits(bits);
            },
            DitherParametersView::Shibata882 { bits } => {
                Self::lemma_bits(bits);
            },
            DitherParametersView::ShibataLow882 { bits } => {
                Self::lemma_bits(bits);
            },
            DitherParametersView::Shibata96 { bits } => {
                Self::lemma_bits(bits);
            },
            DitherParametersView::ShibataLow96 { bits } => {
                Self::lemma_bits(bits);
            },
            DitherParametersView::Shibata192 { bits } => {
                Self::lemma_bits(bits);
            },
            DitherParametersView::ShibataLow192 { bits } => {
                Self::lemma_bits(bits);
            },
        }
    }

    /// What a value writes beside its discriminant is like any entries that
    /// the value was read from as the variant that `k` selects; and the value
    /// is of that variant.
    pub proof fn lemma_variant_like(k: DitherParametersKind, m: Entries)
        requires
            distinct_keys(m),
        ensures
            Self::decode_variant(k, m) matches Ok(v) ==> Self::kind_of(v) == k && alike_entries(
                m,
                present(Self::variant_slots(v)),
            ),
    {
        match k {
            DitherParametersKind::NoDither => {
                Self::lemma_like_bits(m);
            },
            DitherParametersKind::Flat => {
                Self::lemma_like_flat(m);
            },
            DitherParametersKind::Highpass => {
                Self::lemma_like_bits(m);
            },
            DitherParametersKind::Fweighted441 => {
                Self::lemma_like_bits(m);
            },
            DitherParametersKind::FweightedLong441 => {
                Self::lemma_like_bits(m);
            },
            DitherParametersKind::FweightedShort441 => {
                Self::lemma_like_bits(m);
            },
            DitherParametersKind::Gesemann441 => {
                Self::lemma_like_bits(m);
            },
            DitherParametersKind::Gesemann48 => {
                Self::lemma_like_bits(m);
            },
            DitherParametersKind::Lipshitz441 => {
                Self::lemma_like_bits(m);
            },
            DitherParametersKind::LipshitzLong441 => {
                Self::lemma_like_bits(m);
            },
            DitherParametersKind::Shibata441 => {
                Self::lemma_like_bits(m);
            },
            DitherParametersKind::ShibataHigh441 => {
                Self::lemma_like_bits(m);
            },
            DitherParametersKind::ShibataLow441 => {
                Self::lemma_like_bits(m);
            },
            DitherParametersKind::Shibata48 => {
                Self::lemma_like_bits(m);
            },
            DitherParametersKind::ShibataHigh48 => {
                Self::lemma_like_bits(m);
            },
            DitherParametersKind::ShibataLow48 => {
                Self::lemma_like_bits(m);
            },
            DitherParametersKind::Shibata882 => {
                Self::lemma_like_bits(m);
            },
            DitherParametersKind::ShibataLow882 => {
                Self::lemma_like_bits(m);
            },
            DitherParametersKind::Shibata96 => {
                Self::lemma_like_bits(m);
            },
            DitherParametersKind::ShibataLow96 => {
                Self::lemma_like_bits(m);
            },
            DitherParametersKind::Shibata192 => {
                Self::lemma_like_bits(m);
            },
            DitherParametersKind::ShibataLow192 => {
                Self::lemma_like_bits(m);
            },
        }
    }

    /// The discriminant of the value.
    pub fn kind(&self) -> (k: DitherParametersKind)
        ensures
            k == Self::kind_of(self.deep_view()),
    {
        match self {
            DitherParameters::NoDither { .. } => DitherParametersKind::NoDither,
            DitherParameters::Flat { .. } => DitherParametersKind::Flat,
            DitherParameters::Highpass { .. } => DitherParametersKind::Highpass,
            DitherParameters::Fweighted441 { .. } => DitherParametersKind::Fweighted441,
            DitherParameters::FweightedLong441 { .. } => DitherParametersKind::FweightedLong441,
            DitherParameters::FweightedShort441 { .. } => DitherParametersKind::FweightedShort441,
            DitherParameters::Gesemann441 { .. } => DitherParametersKind::Gesemann441,
            DitherParameters::Gesemann48 { .. } => DitherParametersKind::Gesemann48,
            DitherParameters::Lipshitz441 { .. } => DitherParametersKind::Lipshitz441,
            DitherParameters::LipshitzLong441 { .. } => DitherParametersKind::LipshitzLong441,
            DitherParameters::Shibata441 { .. } => DitherParametersKind::Shibata441,
            DitherParameters::ShibataHigh441 { .. } => DitherParametersKind::ShibataHigh441,
            DitherParameters::ShibataLow441 { .. } => DitherParametersKind::ShibataLow441,
            DitherParameters::Shibata48 { .. } => DitherParametersKind::Shibata48,
            DitherParameters::ShibataHigh48 { .. } => DitherParametersKind::ShibataHigh48,
            DitherParameters::ShibataLow48 { .. } => DitherParametersKind::ShibataLow48,
            DitherParameters::Shibata882 { .. } => DitherParametersKind::Shibata882,
            DitherParameters::ShibataLow882 { .. } => DitherParametersKind::ShibataLow882,
            DitherParameters::Shibata96 { .. } => DitherParametersKind::Shibata96,
            DitherParameters::ShibataLow96 { .. } => DitherParametersKind::ShibataLow96,
            DitherParameters::Shibata192 { .. } => DitherParametersKind::Shibata192,
            DitherParameters::ShibataLow192 { .. } => DitherParametersKind::ShibataLow192,
        }
    }
}

/// A difference equation, by its coefficients.
#[derive(Clone, Debug, PartialEq, Eq)]
pub struct DiffEqParameters {
    pub a: Option<Vec<Numeral>>,
    pub b: Option<Vec<Numeral>>,
}

/// The mathematical value of a [`DiffEqParameters`].
pub struct DiffEqParametersView {
    pub a: Option<Seq<NumeralView>>,
    pub b: Option<Seq<NumeralView>>,
}

impl DeepView for DiffEqParameters {
    type V = DiffEqParametersView;

    open spec fn deep_view(&self) -> DiffEqParametersView {
        DiffEqParametersView {
            a: self.a.deep_view(),
            b: self.b.deep_view(),
        }
    }
}

impl DiffEqParameters {
    /// The keys that the record declares.
    pub open spec fn names() -> Seq<Seq<char>> {
        seq!["a"@, "b"@]
    }

    /// The keys of the record are distinct, and none is the key of a discriminant.
    pub proof fn lemma_names()
        ensures
            Self::names().no_duplicates(),
            !Self::names().contains(tag_key()),
    {
        reveal_strlit("type");
        reveal_strlit("a");
        reveal_strlit("b");
        assert("type"@.len() == 4);
        assert("a"@.len() == 1 && "a"@[0] == 'a');
        assert("b"@.len() == 1 && "b"@[0] == 'b');
    }
}

impl Record for DiffEqParameters {
    open spec fn slots(v: DiffEqParametersView) -> Seq<Slot> {
        seq![
            slot_opt::<Vec<Numeral>>("a"@, v.a),
            slot_opt::<Vec<Numeral>>("b"@, v.b),
        ]
    }

    open spec fn decode_fields(m: Entries) -> Result<DiffEqParametersView, Fault> {
        let a = optional::<Vec<Numeral>>(m, "a"@);
        let b = optional::<Vec<Numeral>>(m, "b"@);
        if let Some(e) = unknown_field(m, Self::names()) {
            Err(e)
        } else if a is Err {
            Err(a->Err_0)
        } else if b is Err {
            Err(b->Err_0)
        } else {
            Ok(DiffEqParametersView { a: a->Ok_0, b: b->Ok_0 })
        }
    }

    fn read_fields(f: &Fields) -> (r: Result<DiffEqParameters, SchemaError>) {
        let known = vec!["a", "b"];
        proof {
            assert(texts(known@) =~= Self::names());
        }
        f.deny_unknown(&known)?;
        let a = f.optional::<Vec<Numeral>>("a")?;
        let b = f.optional::<Vec<Numeral>>("b")?;
        Ok(DiffEqParameters { a, b })
    }

    fn write_fields(&self, w: Writer) -> (r: Writer) {
        let ghost before = w.slots();
        let w = w.put_opt::<Vec<Numeral>>("a", &self.a);
        let w = w.put_opt::<Vec<Numeral>>("b", &self.b);
        proof {
            assert(w.slots() =~= before + Self::slots(self.deep_view()));
        }
        w
    }

    proof fn lemma_fields(v: DiffEqParametersView) {
        Self::lemma_names();
        let s = Self::slots(v);
        lemma_slot_names(s, Self::names());
        lemma_present_known(s, Self::names());
        lemma_optional::<Vec<Numeral>>(s, 0, "a"@, v.a);
        lemma_optional::<Vec<Numeral>>(s, 1, "b"@, v.b);
    }

    proof fn lemma_fields_faithful(m: Entries) {
        if let Ok(v) = Self::decode_fields(m) {
            Self::lemma_names();
            lemma_unknown_field(m, Self::names());
            let s = lemma_matched_none(m);
            let s = lemma_matched_optional::<Vec<Numeral>>(m, s, "a"@, v.a);
            let s = lemma_matched_optional::<Vec<Numeral>>(m, s, "b"@, v.b);
            assert(s =~= Self::slots(v));
            lemma_slot_names(s, Self::names());
            lemma_alike_slots(m, s, Self::names());
        }
    }
}

/// A limiter.
#[derive(Clone, Debug, PartialEq, Eq)]
pub struct LimiterParameters {
    pub soft_clip: Option<bool>,
    pub clip_limit: Numeral,
}

/// The mathematical value of a [`LimiterParameters`].
pub struct LimiterParametersView {
    pub soft_clip: Option<bool>,
    pub clip_limit: NumeralView,
}

impl DeepView for LimiterParameters {
    type V = LimiterParametersView;

    open spec fn deep_view(&self) -> LimiterParametersView {
        LimiterParametersView {
            soft_clip: self.soft_clip.deep_view(),
            clip_limit: self.clip_limit.deep_view(),
        }
    }
}

impl LimiterParameters {
    /// The keys that the record declares.
    pub open spec fn names() -> Seq<Seq<char>> {
        seq!["soft_clip"@, "clip_limit"@]
    }

    /// The keys of the record are distinct, and none is the key of a discriminant.
    pub proof fn lemma_names()
        ensures
            Self::names().no_duplicates(),
            !Self::names().contains(tag_key()),
    {
        reveal_strlit("type");
        reveal_strlit("soft_clip");
        reveal_strlit("clip_limit");
        assert("type"@.len() == 4);
        assert("soft_clip"@.len() == 9);
        assert("clip_limit"@.len() == 10);
    }
}

impl Record for LimiterParameters {
    open spec fn slots(v: LimiterParametersView) -> Seq<Slot> {
        seq![
            slot_opt::<bool>("soft_clip"@, v.soft_clip),
            slot::<Numeral>("clip_limit"@, v.clip_limit),
        ]
    }

    open spec fn decode_fields(m: Entries) -> Result<LimiterParametersView, Fault> {
        let soft_clip = optional::<bool>(m, "soft_clip"@);
        let clip_limit = required::<Numeral>(m, "clip_limit"@);
        if let Some(e) = unknown_field(m, Self::names()) {
            Err(e)
        } else if soft_clip is Err {
            Err(soft_clip->Err_0)
        } else if clip_limit is Err {
            Err(clip_limit->Err_0)
        } else {
            Ok(LimiterParametersView { soft_clip: soft_clip->Ok_0, clip_limit: clip_limit->Ok_0 })
        }
    }

    fn read_fields(f: &Fields) -> (r: Result<LimiterParameters, SchemaError>) {
        let known = vec!["soft_clip", "clip_limit"];
        proof {
            assert(texts(known@) =~= Self::names());
        }
        f.deny_unknown(&known)?;
        let soft_clip = f.optional::<bool>("soft_clip")?;
        let clip_limit = f.required::<Numeral>("clip_limit")?;
        Ok(LimiterParameters { soft_clip, clip_limit })
    }

    fn write_fields(&self, w: Writer) -> (r: Writer) {
        let ghost before = w.slots();
        let w = w.put_opt::<bool>("soft_clip", &self.soft_clip);
        let w = w.put::<Numeral>("clip_limit", &self.clip_limit);
        proof {
            assert(w.slots() =~= before + Self::slots(self.deep_view()));
        }
        w
    }

    proof fn lemma_fields(v: LimiterParametersView) {
        Self::lemma_names();
        let s = Self::slots(v);
        lemma_slot_names(s, Self::names());
        lemma_present_known(s, Self::names());
        lemma_optional::<bool>(s, 0, "soft_clip"@, v.soft_clip);
        lemma_required::<Numeral>(s, 1, "clip_limit"@, v.clip_limit);
    }

    proof fn lemma_fields_faithful(m: Entries) {
        if let Ok(v) = Self::decode_fields(m) {
            Self::lemma_names();
            lemma_unknown_field(m, Self::names());
            let s = lemma_matched_none(m);
            let s = lemma_matched_optional::<bool>(m, s, "soft_clip"@, v.soft_clip);
            let s = lemma_matched_required::<Numeral>(m, s, "clip_limit"@, v.clip_limit);
            assert(s =~= Self::slots(v));
            lemma_slot_names(s, Self::names());
            lemma_alike_slots(m, s, Self::names());
        }
    }
}

/// A filter: its kind, what it is for, and its parameters.
#[derive(Clone, Debug, PartialEq, Eq)]
pub enum Filter {
    Conv { description: Option<String>, parameters: ConvParameters },
    Biquad { description: Option<String>, parameters: BiquadParameters },
    BiquadCombo { description: Option<String>, parameters: BiquadComboParameters },
    Delay { description: Option<String>, parameters: DelayParameters },
    Gain { description: Option<String>, parameters: GainParameters },
    Volume { description: Option<String>, parameters: VolumeParameters },
    Loudness { description: Option<String>, parameters: LoudnessParameters },
    Dither { description: Option<String>, parameters: DitherParameters },
    DiffEq { description: Option<String>, parameters: DiffEqParameters },
    Limiter { description: Option<String>, parameters: LimiterParameters },
}

/// The mathematical value of a [`Filter`].
pub enum FilterView {
    Conv { description: Option<Seq<char>>, parameters: ConvParametersView },
    Biquad { description: Option<Seq<char>>, parameters: BiquadParametersView },
    BiquadCombo { description: Option<Seq<char>>, parameters: BiquadComboParametersView },
    Delay { description: Option<Seq<char>>, parameters: DelayParametersView },
    Gain { description: Option<Seq<char>>, parameters: GainParametersView },
    Volume { description: Option<Seq<char>>, parameters: VolumeParametersView },
    Loudness { description: Option<Seq<char>>, parameters: LoudnessParametersView },
    Dither { description: Option<Seq<char>>, parameters: DitherParametersView },
    DiffEq { description: Option<Seq<char>>, parameters: DiffEqParametersView },
    Limiter { description: Option<Seq<char>>, parameters: LimiterParametersView },
}

/// The discriminants of [`Filter`].
#[derive(Clone, Copy, Debug, PartialEq, Eq)]
pub enum FilterKind {
    Conv,
    Biquad,
    BiquadCombo,
    Delay,
    Gain,
    Volume,
    Loudness,
    Dither,
    DiffEq,
    Limiter,
}

impl Spelled for FilterKind {
    open spec fn name(self) -> Seq<char> {
        match self {
            FilterKind::Conv => "Conv"@,
            FilterKind::Biquad => "Biquad"@,
            FilterKind::BiquadCombo => "BiquadCombo"@,
            FilterKind::Delay => "Delay"@,
            FilterKind::Gain => "Gain"@,
            FilterKind::Volume => "Volume"@,
            FilterKind::Loudness => "Loudness"@,
            FilterKind::Dither => "Dither"@,
            FilterKind::DiffEq => "DiffEq"@,
            FilterKind::Limiter => "Limiter"@,
        }
    }

    open spec fn named(t: Seq<char>) -> Option<FilterKind> {
        if t == "Conv"@ {
            Some(FilterKind::Conv)
        } else if t == "Biquad"@ {
            Some(FilterKind::Biquad)
        } else if t == "BiquadCombo"@ {
            Some(FilterKind::BiquadCombo)
        } else if t == "Delay"@ {
            Some(FilterKind::Delay)
        } else if t == "Gain"@ {
            Some(FilterKind::Gain)
        } else if t == "Volume"@ {
            Some(FilterKind::Volume)
        } else if t == "Loudness"@ {
            Some(FilterKind::Loudness)
        } else if t == "Dither"@ {
            Some(FilterKind::Dither)
        } else if t == "DiffEq"@ {
            Some(FilterKind::DiffEq)
        } else if t == "Limiter"@ {
            Some(FilterKind::Limiter)
        } else {
            None
        }
    }

    fn as_str(&self) -> (r: &'static str) {
        match self {
            FilterKind::Conv => "Conv",
            FilterKind::Biquad => "Biquad",
            FilterKind::BiquadCombo => "BiquadCombo",
            FilterKind::Delay => "Delay",
            FilterKind::Gain => "Gain",
            FilterKind::Volume => "Volume",
            FilterKind::Loudness => "Loudness",
            FilterKind::Dither => "Dither",
            FilterKind::DiffEq => "DiffEq",
            FilterKind::Limiter => "Limiter",
        }
    }

    fn from_name(t: &str) -> (r: Option<FilterKind>) {
        if same_text(t, "Conv") {
            Some(FilterKind::Conv)
        } else if same_text(t, "Biquad") {
            Some(FilterKind::Biquad)
        } else if same_text(t, "BiquadCombo") {
            Some(FilterKind::BiquadCombo)
        } else if same_text(t, "Delay") {
            Some(FilterKind::Delay)
        } else if same_text(t, "Gain") {
            Some(FilterKind::Gain)
        } else if same_text(t, "Volume") {
            Some(FilterKind::Volume)
        } else if same_text(t, "Loudness") {
            Some(FilterKind::Loudness)
        } else if same_text(t, "Dither") {
            Some(FilterKind::Dither)
        } else if same_text(t, "DiffEq") {
            Some(FilterKind::DiffEq)
        } else if same_text(t, "Limiter") {
            Some(FilterKind::Limiter)
        } else {
            None
        }
    }

    proof fn lemma_named(self) {
        reveal_strlit("Conv");
        reveal_strlit("Biquad");
        reveal_strlit("BiquadCombo");
        reveal_strlit("Delay");
        reveal_strlit("Gain");
        reveal_strlit("Volume");
        reveal_strlit("Loudness");
        reveal_strlit("Dither");
        reveal_strlit("DiffEq");
        reveal_strlit("Limiter");
        assert("Conv"@.len() == 4 && "Conv"@[0] == 'C');
        assert("Biquad"@.len() == 6 && "Biquad"@[0] == 'B');
        assert("BiquadCombo"@.len() == 11);
        assert("Delay"@.len() == 5);
        assert("Gain"@.len() == 4 && "Gain"@[0] == 'G');
        assert("Volume"@.len() == 6 && "Volume"@[0] == 'V');
        assert("Loudness"@.len() == 8);
        assert("Dither"@.len() == 6 && "Dither"@[0] == 'D' && "Dither"@[2] == 't');
        assert("DiffEq"@.len() == 6 && "DiffEq"@[0] == 'D' && "DiffEq"@[2] == 'f');
        assert("Limiter"@.len() == 7);
    }
}

impl DeepView for Filter {
    type V = FilterView;

    open spec fn deep_view(&self) -> FilterView {
        match self {
            Filter::Conv { description, parameters } => FilterView::Conv {
                description: description.deep_view(),
                parameters: parameters.deep_view(),
            },
            Filter::Biquad { description, parameters } => FilterView::Biquad {
                description: description.deep_view(),
                parameters: parameters.deep_view(),
            },
            Filter::BiquadCombo { description, parameters } => FilterView::BiquadCombo {
                description: description.deep_view(),
                parameters: parameters.deep_view(),
            },
            Filter::Delay { description, parameters } => FilterView::Delay {
                description: description.deep_view(),
                parameters: parameters.deep_view(),
            },
            Filter::Gain { description, parameters } => FilterView::Gain {
                description: description.deep_view(),
                parameters: parameters.deep_view(),
            },
            Filter::Volume { description, parameters } => FilterView::Volume {
                description: description.deep_view(),
                parameters: parameters.deep_view(),
            },
            Filter::Loudness { description, parameters } => FilterView::Loudness {
                description: description.deep_view(),
                parameters: parameters.deep_view(),
            },
            Filter::Dither { description, parameters } => FilterView::Dither {
                description: description.deep_view(),
                parameters: parameters.deep_view(),
            },
            Filter::DiffEq { description, parameters } => FilterView::DiffEq {
                description: description.deep_view(),
                parameters: parameters.deep_view(),
            },
            Filter::Limiter { description, parameters } => FilterView::Limiter {
                description: description.deep_view(),
                parameters: parameters.deep_view(),
            },
        }
    }
}

impl Filter {
    /// The keys that a variant with the fields `description`, `parameters` declares.
    pub open spec fn names_description_parameters() -> Seq<Seq<char>> {
        seq!["description"@, "parameters"@]
    }

    /// The keys of a variant with the fields `description`, `parameters` are distinct, and none is the key of a discriminant.
    pub proof fn lemma_names_description_parameters()
        ensures
            Self::names_description_parameters().no_duplicates(),
            !Self::names_description_parameters().contains(tag_key()),
    {
        reveal_strlit("type");
        reveal_strlit("description");
        reveal_strlit("parameters");
        assert("type"@.len() == 4);
        assert("description"@.len() == 11);
        assert("parameters"@.len() == 10);
    }

    /// What a variant with the fields `description`, `parameters` writes: one slot for each field.
    pub open spec fn slots_description_parameters<P: Schema>(description: Option<Seq<char>>, parameters: P::V) -> Seq<Slot> {
        seq![
            slot_opt::<String>("description"@, description),
            slot::<P>("parameters"@, parameters),
        ]
    }

    /// What entries stand for, read as a variant with the fields `description`, `parameters`.
    pub open spec fn decode_description_parameters<P: Schema>(m: Entries) -> Result<(Option<Seq<char>>, P::V), Fault> {
        let description = optional::<String>(m, "description"@);
        let parameters = required::<P>(m, "parameters"@);
        if let Some(e) = unknown_field(m, Self::names_description_parameters()) {
            Err(e)
        } else if description is Err {
            Err(description->Err_0)
        } else if parameters is Err {
            Err(parameters->Err_0)
        } else {
            Ok((description->Ok_0, parameters->Ok_0))
        }
    }

    /// Reads a variant with the fields `description`, `parameters`.
    pub fn read_description_parameters<P: Schema>(f: &Fields) -> (r: Result<(Option<String>, P), SchemaError>)
        ensures
            r matches Ok(x) ==> Self::decode_description_parameters::<P>(f@) == Ok::<(Option<Seq<char>>, P::V), Fault>(x.deep_view()),
            r matches Err(e) ==> Self::decode_description_parameters::<P>(f@) == Err::<(Option<Seq<char>>, P::V), Fault>(e.deep_view()),
    {
        let known = vec!["description", "parameters"];
        proof {
            assert(texts(known@) =~= Self::names_description_parameters());
        }
        f.deny_unknown(&known)?;
        let description = f.optional::<String>("description")?;
        let parameters = f.required::<P>("parameters")?;
        Ok((description, parameters))
    }

    /// Writes the fields of a variant with the fields `description`, `parameters` after what `w` holds.
    pub fn write_description_parameters<P: Schema>(w: Writer, description: &Option<String>, parameters: &P) -> (r: Writer)
        ensures
            r.slots() == w.slots() + Self::slots_description_parameters::<P>(description.deep_view(), parameters.deep_view()),
    {
        let ghost before = w.slots();
        let w = w.put_opt::<String>("description", description);
        let w = w.put::<P>("parameters", parameters);
        proof {
            assert(w.slots() =~= before + Self::slots_description_parameters::<P>(description.deep_view(), parameters.deep_view()));
        }
        w
    }

    /// Reading what a variant with the fields `description`, `parameters` wrote gives the fields back.
    pub proof fn lemma_description_parameters<P: Schema>(description: Option<Seq<char>>, parameters: P::V)
        ensures
            distinct_names(Self::slots_description_parameters::<P>(description, parameters)),
            !names_slot(Self::slots_description_parameters::<P>(description, parameters), tag_key()),
            Self::decode_description_parameters::<P>(present(Self::slots_description_parameters::<P>(description, parameters))) == Ok::<(Option<Seq<char>>, P::V), Fault>(
                (description, parameters),
            ),
    {
        Self::lemma_names_description_parameters();
        let s = Self::slots_description_parameters::<P>(description, parameters);
        lemma_slot_names(s, Self::names_description_parameters());
        lemma_present_known(s, Self::names_description_parameters());
        lemma_optional::<String>(s, 0, "description"@, description);
        lemma_required::<P>(s, 1, "parameters"@, parameters);
    }

    /// What a variant with the fields `description`, `parameters` writes is like any entries that its fields were read from.
    pub proof fn lemma_like_description_parameters<P: Schema>(m: Entries)
        requires
            distinct_keys(m),
        ensures
            Self::decode_description_parameters::<P>(m) matches Ok((description, parameters)) ==> alike_entries(
                m,
                present(Self::slots_description_parameters::<P>(description, parameters)),
            ),
    {
        if let Ok((description, parameters)) = Self::decode_description_parameters::<P>(m) {
            Self::lemma_names_description_parameters();
            lemma_unknown_field(m, Self::names_description_parameters());
            let s = lemma_matched_none(m);
            let s = lemma_matched_optional::<String>(m, s, "description"@, description);
            let s = lemma_matched_required::<P>(m, s, "parameters"@, parameters);
            assert(s =~= Self::slots_description_parameters::<P>(description, parameters));
            lemma_slot_names(s, Self::names_description_parameters());
            lemma_alike_slots(m, s, Self::names_description_parameters());
        }
    }

    /// The discriminant of a value.
    pub open spec fn kind_of(v: FilterView) -> FilterKind {
        match v {
            FilterView::Conv { .. } => FilterKind::Conv,
            FilterView::Biquad { .. } => FilterKind::Biquad,
            FilterView::BiquadCombo { .. } => FilterKind::BiquadCombo,
            FilterView::Delay { .. } => FilterKind::Delay,
            FilterView::Gain { .. } => FilterKind::Gain,
            FilterView::Volume { .. } => FilterKind::Volume,
            FilterView::Loudness { .. } => FilterKind::Loudness,
            FilterView::Dither { .. } => FilterKind::Dither,
            FilterView::DiffEq { .. } => FilterKind::DiffEq,
            FilterView::Limiter { .. } => FilterKind::Limiter,
        }
    }

    /// What a value writes beside its discriminant.
    pub open spec fn variant_slots(v: FilterView) -> Seq<Slot> {
        match v {
            FilterView::Conv { description, parameters } => Self::slots_description_parameters::<ConvParameters>(description, parameters),
            FilterView::Biquad { description, parameters } => Self::slots_description_parameters::<BiquadParameters>(description, parameters),
            FilterView::BiquadCombo { description, parameters } => Self::slots_description_parameters::<BiquadComboParameters>(description, parameters),
            FilterView::Delay { description, parameters } => Self::slots_description_parameters::<DelayParameters>(description, parameters),
            FilterView::Gain { description, parameters } => Self::slots_description_parameters::<GainParameters>(description, parameters),
            FilterView::Volume { description, parameters } => Self::slots_description_parameters::<VolumeParameters>(description, parameters),
            FilterView::Loudness { description, parameters } => Self::slots_description_parameters::<LoudnessParameters>(description, parameters),
            FilterView::Dither { description, parameters } => Self::slots_description_parameters::<DitherParameters>(description, parameters),
            FilterView::DiffEq { description, parameters } => Self::slots_description_parameters::<DiffEqParameters>(description, parameters),
            FilterView::Limiter { description, parameters } => Self::slots_description_parameters::<LimiterParameters>(description, parameters),
        }
    }

    /// The value that entries stand for, read as the variant that `k` selects.
    pub open spec fn decode_variant(k: FilterKind, m: Entries) -> Result<FilterView, Fault> {
        match k {
            FilterKind::Conv => match Self::decode_description_parameters::<ConvParameters>(m) {
                Ok((description, parameters)) => Ok(FilterView::Conv { description, parameters }),
                Err(e) => Err(e),
            },
            FilterKind::Biquad => match Self::decode_description_parameters::<BiquadParameters>(m) {
                Ok((description, parameters)) => Ok(FilterView::Biquad { description, parameters }),
                Err(e) => Err(e),
            },
            FilterKind::BiquadCombo => match Self::decode_description_parameters::<BiquadComboParameters>(m) {
                Ok((description, parameters)) => Ok(FilterView::BiquadCombo { description, parameters }),
                Err(e) => Err(e),
            },
            FilterKind::Delay => match Self::decode_description_parameters::<DelayParameters>(m) {
                Ok((description, parameters)) => Ok(FilterView::Delay { description, parameters }),
                Err(e) => Err(e),
            },
            FilterKind::Gain => match Self::decode_description_parameters::<GainParameters>(m) {
                Ok((description, parameters)) => Ok(FilterView::Gain { description, parameters }),
                Err(e) => Err(e),
            },
            FilterKind::Volume => match Self::decode_description_parameters::<VolumeParameters>(m) {
                Ok((description, parameters)) => Ok(FilterView::Volume { description, parameters }),
                Err(e) => Err(e),
            },
            FilterKind::Loudness => match Self::decode_description_parameters::<LoudnessParameters>(m) {
                Ok((description, parameters)) => Ok(FilterView::Loudness { description, parameters }),
                Err(e) => Err(e),
            },
            FilterKind::Dither => match Self::decode_description_parameters::<DitherParameters>(m) {
                Ok((description, parameters)) => Ok(FilterView::Dither { description, parameters }),
                Err(e) => Err(e),
            },
            FilterKind::DiffEq => match Self::decode_description_parameters::<DiffEqParameters>(m) {
                Ok((description, parameters)) => Ok(FilterView::DiffEq { description, parameters }),
                Err(e) => Err(e),
            },
            FilterKind::Limiter => match Self::decode_description_parameters::<LimiterParameters>(m) {
                Ok((description, parameters)) => Ok(FilterView::Limiter { description, parameters }),
                Err(e) => Err(e),
            },
        }
    }
}

impl Schema for Filter {
    open spec fn decode(n: NodeView) -> Result<FilterView, Fault> {
        decode_tagged(n, |k: FilterKind, m: Entries| Self::decode_variant(k, m))
    }

    open spec fn encode(v: FilterView) -> NodeView {
        tagged_node(Self::kind_of(v).name(), Self::variant_slots(v))
    }

    fn from_node(n: &Node) -> (r: Result<Filter, SchemaError>) {
        let f = Fields::of(n)?;
        let (k, rest) = f.tagged::<FilterKind>()?;
        match k {
            FilterKind::Conv => match Self::read_description_parameters::<ConvParameters>(&rest) {
                Ok((description, parameters)) => Ok(Filter::Conv { description, parameters }),
                Err(e) => Err(e),
            },
            FilterKind::Biquad => match Self::read_description_parameters::<BiquadParameters>(&rest) {
                Ok((description, parameters)) => Ok(Filter::Biquad { description, parameters }),
                Err(e) => Err(e),
            },
            FilterKind::BiquadCombo => match Self::read_description_parameters::<BiquadComboParameters>(&rest) {
                Ok((description, parameters)) => Ok(Filter::BiquadCombo { description, parameters }),
                Err(e) => Err(e),
            },
            FilterKind::Delay => match Self::read_description_parameters::<DelayParameters>(&rest) {
                Ok((description, parameters)) => Ok(Filter::Delay { description, parameters }),
                Err(e) => Err(e),
            },
            FilterKind::Gain => match Self::read_description_parameters::<GainParameters>(&rest) {
                Ok((description, parameters)) => Ok(Filter::Gain { description, parameters }),
                Err(e) => Err(e),
            },
            FilterKind::Volume => match Self::read_description_parameters::<VolumeParameters>(&rest) {
                Ok((description, parameters)) => Ok(Filter::Volume { description, parameters }),
                Err(e) => Err(e),
            },
            FilterKind::Loudness => match Self::read_description_parameters::<LoudnessParameters>(&rest) {
                Ok((description, parameters)) => Ok(Filter::Loudness { description, parameters }),
                Err(e) => Err(e),
            },
            FilterKind::Dither => match Self::read_description_parameters::<DitherParameters>(&rest) {
                Ok((description, parameters)) => Ok(Filter::Dither { description, parameters }),
                Err(e) => Err(e),
            },
            FilterKind::DiffEq => match Self::read_description_parameters::<DiffEqParameters>(&rest) {
                Ok((description, parameters)) => Ok(Filter::DiffEq { description, parameters }),
                Err(e) => Err(e),
            },
            FilterKind::Limiter => match Self::read_description_parameters::<LimiterParameters>(&rest) {
                Ok((description, parameters)) => Ok(Filter::Limiter { description, parameters }),
                Err(e) => Err(e),
            },
        }
    }

    fn to_node(&self) -> (n: Node) {
        let ghost v = self.deep_view();
        let w = Writer::tagged(&self.kind());
        let w = match self {
            Filter::Conv { description, parameters } => Self::write_description_parameters::<ConvParameters>(w, description, parameters),
            Filter::Biquad { description, parameters } => Self::write_description_parameters::<BiquadParameters>(w, description, parameters),
            Filter::BiquadCombo { description, parameters } => Self::write_description_parameters::<BiquadComboParameters>(w, description, parameters),
            Filter::Delay { description, parameters } => Self::write_description_parameters::<DelayParameters>(w, description, parameters),
            Filter::Gain { description, parameters } => Self::write_description_parameters::<GainParameters>(w, description, parameters),
            Filter::Volume { description, parameters } => Self::write_description_parameters::<VolumeParameters>(w, description, parameters),
            Filter::Loudness { description, parameters } => Self::write_description_parameters::<LoudnessParameters>(w, description, parameters),
            Filter::Dither { description, parameters } => Self::write_description_parameters::<DitherParameters>(w, description, parameters),
            Filter::DiffEq { description, parameters } => Self::write_description_parameters::<DiffEqParameters>(w, description, parameters),
            Filter::Limiter { description, parameters } => Self::write_description_parameters::<LimiterParameters>(w, description, parameters),
        };
        w.finish()
    }

    proof fn lemma_round_trip(v: FilterView) {
        Self::lemma_variant(v);
        lemma_tagged_round_trip(
            Self::kind_of(v),
            Self::variant_slots(v),
            |k: FilterKind, m: Entries| Self::decode_variant(k, m),
        );
    }

    proof fn lemma_faithful(n: NodeView) {
        if is_record(n) {
            if let Ok(k) = tag_of::<FilterKind>(entries(n)) {
                lemma_untagged_distinct::<FilterKind>(n);
                Self::lemma_variant_like(k, untagged(entries(n)));
                if let Ok(v) = Self::decode_variant(k, untagged(entries(n))) {
                    Self::lemma_variant(v);
                    lemma_tagged_faithful(n, k, Self::variant_slots(v));
                }
            }
        }
    }
}

impl Filter {
    /// Reading what a value writes beside its discriminant, as the variant of
    /// the value, gives the value back; its slots have distinct names, none of
    /// them the key of the discriminant.
    pub proof fn lemma_variant(v: FilterView)
        ensures
            distinct_names(Self::variant_slots(v)),
            !names_slot(Self::variant_slots(v), tag_key()),
            Self::decode_variant(Self::kind_of(v), present(Self::variant_slots(v))) == Ok::<FilterView, Fault>(v),
    {
        match v {
            FilterView::Conv { description, parameters } => {
                Self::lemma_description_parameters::<ConvParameters>(description, parameters);
            },
            FilterView::Biquad { description, parameters } => {
                Self::lemma_description_parameters::<BiquadParameters>(description, parameters);
            },
            FilterView::BiquadCombo { description, parameters } => {
                Self::lemma_description_parameters::<BiquadComboParameters>(description, parameters);
            },
            FilterView::Delay { description, parameters } => {
                Self::lemma_description_parameters::<DelayParameters>(description, parameters);
            },
            FilterView::Gain { description, parameters } => {
                Self::lemma_description_parameters::<GainParameters>(description, parameters);
            },
            FilterView::Volume { description, parameters } => {
                Self::lemma_description_parameters::<VolumeParameters>(description, parameters);
            },
            FilterView::Loudness { description, parameters } => {
                Self::lemma_description_parameters::<LoudnessParameters>(description, parameters);
            },
            FilterView::Dither { description, parameters } => {
                Self::lemma_description_parameters::<DitherParameters>(description, parameters);
            },
            FilterView::DiffEq { description, parameters } => {
                Self::lemma_description_parameters::<DiffEqParameters>(description, parameters);
            },
            FilterView::Limiter { description, parameters } => {
                Self::lemma_description_parameters::<LimiterParameters>(description, parameters);
            },
        }
    }

    /// What a value writes beside its discriminant is like any entries that
    /// the value was read from as the variant that `k` selects; and the value
    /// is of that variant.
    pub proof fn lemma_variant_like(k: FilterKind, m: Entries)
        requires
            distinct_keys(m),
        ensures
            Self::decode_variant(k, m) matches Ok(v) ==> Self::kind_of(v) == k && alike_entries(
                m,
                present(Self::variant_slots(v)),
            ),
    {
        match k {
            FilterKind::Conv => {
                Self::lemma_like_description_parameters::<ConvParameters>(m);
            },
            FilterKind::Biquad => {
                Self::lemma_like_description_parameters::<BiquadParameters>(m);
            },
            FilterKind::BiquadCombo => {
                Self::lemma_like_description_parameters::<BiquadComboParameters>(m);
            },
            FilterKind::Delay => {
                Self::lemma_like_description_parameters::<DelayParameters>(m);
            },
            FilterKind::Gain => {
                Self::lemma_like_description_parameters::<GainParameters>(m);
            },
            FilterKind::Volume => {
                Self::lemma_like_description_parameters::<VolumeParameters>(m);
            },
            FilterKind::Loudness => {
                Self::lemma_like_description_parameters::<LoudnessParameters>(m);
            },
            FilterKind::Dither => {
                Self::lemma_like_description_parameters::<DitherParameters>(m);
            },
            FilterKind::DiffEq => {
                Self::lemma_like_description_parameters::<DiffEqParameters>(m);
            },
            FilterKind::Limiter => {
                Self::lemma_like_description_parameters::<LimiterParameters>(m);
            },
        }
    }

    /// The discriminant of the value.
    pub fn kind(&self) -> (k: FilterKind)
        ensures
            k == Self::kind_of(self.deep_view()),
    {
        match self {
            Filter::Conv { .. } => FilterKind::Conv,
            Filter::Biquad { .. } => FilterKind::Biquad,
            Filter::BiquadCombo { .. } => FilterKind::BiquadCombo,
            Filter::Delay { .. } => FilterKind::Delay,
            Filter::Gain { .. } => FilterKind::Gain,
            Filter::Volume { .. } => FilterKind::Volume,
            Filter::Loudness { .. } => FilterKind::Loudness,
            Filter::Dither { .. } => FilterKind::Dither,
            Filter::DiffEq { .. } => FilterKind::DiffEq,
            Filter::Limiter { .. } => FilterKind::Limiter,
        }
    }
}

} // verus!
