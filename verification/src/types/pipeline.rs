//! The steps of the pipeline, in the order in which they run.

use vstd::prelude::*;
use crate::composite::Record;
use crate::error::{Fault, SchemaError};
use crate::fields::{texts, Fields, Writer};
use crate::likeness::{
    alike_entries, lemma_alike_slots, lemma_matched_none, lemma_matched_optional,
    lemma_matched_required, lemma_tagged_faithful, lemma_untagged_distinct,
};
use crate::node::{Node, NodeView};
use crate::record::{
    decode_tagged, distinct_keys, distinct_names, entries, is_record, lemma_optional,
    lemma_present_known, lemma_required, lemma_slot_names, lemma_tagged_round_trip,
    lemma_unknown_field, names_slot, optional, present, required, slot, slot_opt, tag_key, tag_of,
    tagged_node, unknown_field, untagged, Entries, Slot,
};
use crate::schema::Schema;
use crate::spelling::Spelled;
use crate::text::same_text;
use super::filters::Filter;
use super::mixer::Mixer;
use super::processor::Processor;

verus! {

/// A step that runs a mixer, by its name.
#[derive(Clone, Debug, PartialEq, Eq)]
pub struct PipelineStepMixer {
    pub name: String,
    pub description: Option<String>,
    pub bypassed: Option<bool>,
}

/// The mathematical value of a [`PipelineStepMixer`].
pub struct PipelineStepMixerView {
    pub name: Seq<char>,
    pub description: Option<Seq<char>>,
    pub bypassed: Option<bool>,
}

impl DeepView for PipelineStepMixer {
    type V = PipelineStepMixerView;

    open spec fn deep_view(&self) -> PipelineStepMixerView {
        PipelineStepMixerView {
            name: self.name.deep_view(),
            description: self.description.deep_view(),
            bypassed: self.bypassed.deep_view(),
        }
    }
}

impl PipelineStepMixer {
    /// The keys that the record declares.
    pub open spec fn names() -> Seq<Seq<char>> {
        seq!["name"@, "description"@, "bypassed"@]
    }

    /// The keys of the record are distinct, and none is the key of a discriminant.
    pub proof fn lemma_names()
        ensures
            Self::names().no_duplicates(),
            !Self::names().contains(tag_key()),
    {
        reveal_strlit("type");
        reveal_strlit("name");
        reveal_strlit("description");
        reveal_strlit("bypassed");
        assert("type"@.len() == 4 && "type"@[0] == 't');
        assert("name"@.len() == 4 && "name"@[0] == 'n');
        assert("description"@.len() == 11);
        assert("bypassed"@.len() == 8);
    }
}

impl Record for PipelineStepMixer {
    open spec fn slots(v: PipelineStepMixerView) -> Seq<Slot> {
        seq![
            slot::<String>("name"@, v.name),
            slot_opt::<String>("description"@, v.description),
            slot_opt::<bool>("bypassed"@, v.bypassed),
        ]
    }

    open spec fn decode_fields(m: Entries) -> Result<PipelineStepMixerView, Fault> {
        let name = required::<String>(m, "name"@);
        let description = optional::<String>(m, "description"@);
        let bypassed = optional::<bool>(m, "bypassed"@);
        if let Some(e) = unknown_field(m, Self::names()) {
            Err(e)
        } else if name is Err {
            Err(name->Err_0)
        } else if description is Err {
            Err(description->Err_0)
        } else if bypassed is Err {
            Err(bypassed->Err_0)
        } else {
            Ok(
                PipelineStepMixerView {
                    name: name->Ok_0,
                    description: description->Ok_0,
                    bypassed: bypassed->Ok_0,
                },
            )
        }
    }

    fn read_fields(f: &Fields) -> (r: Result<PipelineStepMixer, SchemaError>) {
        let known = vec!["name", "description", "bypassed"];
        proof {
            assert(texts(known@) =~= Self::names());
        }
        f.deny_unknown(&known)?;
        let name = f.required::<String>("name")?;
        let description = f.optional::<String>("description")?;
        let bypassed = f.optional::<bool>("bypassed")?;
        Ok(PipelineStepMixer { name, description, bypassed })
    }

    fn write_fields(&self, w: Writer) -> (r: Writer) {
        let ghost before = w.slots();
        let w = w.put::<String>("name", &self.name);
        let w = w.put_opt::<String>("description", &self.description);
        let w = w.put_opt::<bool>("bypassed", &self.bypassed);
        proof {
            assert(w.slots() =~= before + Self::slots(self.deep_view()));
        }
        w
    }

    proof fn lemma_fields(v: PipelineStepMixerView) {
        Self::lemma_names();
        let s = Self::slots(v);
        lemma_slot_names(s, Self::names());
        lemma_present_known(s, Self::names());
        lemma_required::<String>(s, 0, "name"@, v.name);
        lemma_optional::<String>(s, 1, "description"@, v.description);
        lemma_optional::<bool>(s, 2, "bypassed"@, v.bypassed);
    }

    proof fn lemma_fields_faithful(m: Entries) {
        if let Ok(v) = Self::decode_fields(m) {
            Self::lemma_names();
            lemma_unknown_field(m, Self::names());
            let s = lemma_matched_none(m);
            let s = lemma_matched_required::<String>(m, s, "name"@, v.name);
            let s = lemma_matched_optional::<String>(m, s, "description"@, v.description);
            let s = lemma_matched_optional::<bool>(m, s, "bypassed"@, v.bypassed);
            assert(s =~= Self::slots(v));
            lemma_slot_names(s, Self::names());
            lemma_alike_slots(m, s, Self::names());
        }
    }
}

/// A step that runs filters, by their names, on some or all channels.
#[derive(Clone, Debug, PartialEq, Eq)]
pub struct PipelineStepFilter {
    pub channels: Option<Vec<usize>>,
    pub names: Vec<String>,
    pub description: Option<String>,
    pub bypassed: Option<bool>,
}

/// The mathematical value of a [`PipelineStepFilter`].
pub struct PipelineStepFilterView {
    pub channels: Option<Seq<usize>>,
    pub names: Seq<Seq<char>>,
    pub description: Option<Seq<char>>,
    pub bypassed: Option<bool>,
}

impl DeepView for PipelineStepFilter {
    type V = PipelineStepFilterView;

    open spec fn deep_view(&self) -> PipelineStepFilterView {
        PipelineStepFilterView {
            channels: self.channels.deep_view(),
            names: self.names.deep_view(),
            description: self.description.deep_view(),
            bypassed: self.bypassed.deep_view(),
        }
    }
}

impl PipelineStepFilter {
    /// The keys that the record declares.
    pub open spec fn names() -> Seq<Seq<char>> {
        seq!["channels"@, "names"@, "description"@, "bypassed"@]
    }

    /// The keys of the record are distinct, and none is the key of a discriminant.
    pub proof fn lemma_names()
        ensures
            Self::names().no_duplicates(),
            !Self::names().contains(tag_key()),
    {
        reveal_strlit("type");
        reveal_strlit("channels");
        reveal_strlit("names");
        reveal_strlit("description");
        reveal_strlit("bypassed");
        assert("type"@.len() == 4);
        assert("channels"@.len() == 8 && "channels"@[0] == 'c');
        assert("names"@.len() == 5);
        assert("description"@.len() == 11);
        assert("bypassed"@.len() == 8 && "bypassed"@[0] == 'b');
    }
}

impl Record for PipelineStepFilter {
    open spec fn slots(v: PipelineStepFilterView) -> Seq<Slot> {
        seq![
            slot_opt::<Vec<usize>>("channels"@, v.channels),
            slot::<Vec<String>>("names"@, v.names),
            slot_opt::<String>("description"@, v.description),
            slot_opt::<bool>("bypassed"@, v.bypassed),
        ]
    }

    open spec fn decode_fields(m: Entries) -> Result<PipelineStepFilterView, Fault> {
        let channels = optional::<Vec<usize>>(m, "channels"@);
        let names = required::<Vec<String>>(m, "names"@);
        let description = optional::<String>(m, "description"@);
        let bypassed = optional::<bool>(m, "bypassed"@);
        if let Some(e) = unknown_field(m, Self::names()) {
            Err(e)
        } else if channels is Err {
            Err(channels->Err_0)
        } else if names is Err {
            Err(names->Err_0)
        } else if description is Err {
            Err(description->Err_0)
        } else if bypassed is Err {
            Err(bypassed->Err_0)
        } else {
            Ok(
                PipelineStepFilterView {
                    channels: channels->Ok_0,
                    names: names->Ok_0,
                    description: description->Ok_0,
                    bypassed: bypassed->Ok_0,
                },
            )
        }
    }

    fn read_fields(f: &Fields) -> (r: Result<PipelineStepFilter, SchemaError>) {
        let known = vec!["channels", "names", "description", "bypassed"];
        proof {
            assert(texts(known@) =~= Self::names());
        }
        f.deny_unknown(&known)?;
        let channels = f.optional::<Vec<usize>>("channels")?;
        let names = f.required::<Vec<String>>("names")?;
        let description = f.optional::<String>("description")?;
        let bypassed = f.optional::<bool>("bypassed")?;
        Ok(PipelineStepFilter { channels, names, description, bypassed })
    }

    fn write_fields(&self, w: Writer) -> (r: Writer) {
        let ghost before = w.slots();
        let w = w.put_opt::<Vec<usize>>("channels", &self.channels);
        let w = w.put::<Vec<String>>("names", &self.names);
        let w = w.put_opt::<String>("description", &self.description);
        let w = w.put_opt::<bool>("bypassed", &self.bypassed);
        proof {
            assert(w.slots() =~= before + Self::slots(self.deep_view()));
        }
        w
    }

    proof fn lemma_fields(v: PipelineStepFilterView) {
        Self::lemma_names();
        let s = Self::slots(v);
        lemma_slot_names(s, Self::names());
        lemma_present_known(s, Self::names());
        lemma_optional::<Vec<usize>>(s, 0, "channels"@, v.channels);
        lemma_required::<Vec<String>>(s, 1, "names"@, v.names);
        lemma_optional::<String>(s, 2, "description"@, v.description);
        lemma_optional::<bool>(s, 3, "bypassed"@, v.bypassed);
    }

    proof fn lemma_fields_faithful(m: Entries) {
        if let Ok(v) = Self::decode_fields(m) {
            Self::lemma_names();
            lemma_unknown_field(m, Self::names());
            let s = lemma_matched_none(m);
            let s = lemma_matched_optional::<Vec<usize>>(m, s, "channels"@, v.channels);
            let s = lemma_matched_required::<Vec<String>>(m, s, "names"@, v.names);
            let s = lemma_matched_optional::<String>(m, s, "description"@, v.description);
            let s = lemma_matched_optional::<bool>(m, s, "bypassed"@, v.bypassed);
            assert(s =~= Self::slots(v));
            lemma_slot_names(s, Self::names());
            lemma_alike_slots(m, s, Self::names());
        }
    }
}

/// A step that runs a processor, by its name.
#[derive(Clone, Debug, PartialEq, Eq)]
pub struct PipelineStepProcessor {
    pub name: String,
    pub description: Option<String>,
    pub bypassed: Option<bool>,
}

/// The mathematical value of a [`PipelineStepProcessor`].
pub struct PipelineStepProcessorView {
    pub name: Seq<char>,
    pub description: Option<Seq<char>>,
    pub bypassed: Option<bool>,
}

impl DeepView for PipelineStepProcessor {
    type V = PipelineStepProcessorView;

    open spec fn deep_view(&self) -> PipelineStepProcessorView {
        PipelineStepProcessorView {
            name: self.name.deep_view(),
            description: self.description.deep_view(),
            bypassed: self.bypassed.deep_view(),
        }
    }
}

impl PipelineStepProcessor {
    /// The keys that the record declares.
    pub open spec fn names() -> Seq<Seq<char>> {
        seq!["name"@, "description"@, "bypassed"@]
    }

    /// The keys of the record are distinct, and none is the key of a discriminant.
    pub proof fn lemma_names()
        ensures
            Self::names().no_duplicates(),
            !Self::names().contains(tag_key()),
    {
        reveal_strlit("type");
        reveal_strlit("name");
        reveal_strlit("description");
        reveal_strlit("bypassed");
        assert("type"@.len() == 4 && "type"@[0] == 't');
        assert("name"@.len() == 4 && "name"@[0] == 'n');
        assert("description"@.len() == 11);
        assert("bypassed"@.len() == 8);
    }
}

impl Record for PipelineStepProcessor {
    open spec fn slots(v: PipelineStepProcessorView) -> Seq<Slot> {
        seq![
            slot::<String>("name"@, v.name),
            slot_opt::<String>("description"@, v.description),
            slot_opt::<bool>("bypassed"@, v.bypassed),
        ]
    }

    open spec fn decode_fields(m: Entries) -> Result<PipelineStepProcessorView, Fault> {
        let name = required::<String>(m, "name"@);
        let description = optional::<String>(m, "description"@);
        let bypassed = optional::<bool>(m, "bypassed"@);
        if let Some(e) = unknown_field(m, Self::names()) {
            Err(e)
        } else if name is Err {
            Err(name->Err_0)
        } else if description is Err {
            Err(description->Err_0)
        } else if bypassed is Err {
            Err(bypassed->Err_0)
        } else {
            Ok(
                PipelineStepProcessorView {
                    name: name->Ok_0,
                    description: description->Ok_0,
                    bypassed: bypassed->Ok_0,
                },
            )
        }
    }

    fn read_fields(f: &Fields) -> (r: Result<PipelineStepProcessor, SchemaError>) {
        let known = vec!["name", "description", "bypassed"];
        proof {
            assert(texts(known@) =~= Self::names());
        }
        f.deny_unknown(&known)?;
        let name = f.required::<String>("name")?;
        let description = f.optional::<String>("description")?;
        let bypassed = f.optional::<bool>("bypassed")?;
        Ok(PipelineStepProcessor { name, description, bypassed })
    }

    fn write_fields(&self, w: Writer) -> (r: Writer) {
        let ghost before = w.slots();
        let w = w.put::<String>("name", &self.name);
        let w = w.put_opt::<String>("description", &self.description);
        let w = w.put_opt::<bool>("bypassed", &self.bypassed);
        proof {
            assert(w.slots() =~= before + Self::slots(self.deep_view()));
        }
        w
    }

    proof fn lemma_fields(v: PipelineStepProcessorView) {
        Self::lemma_names();
        let s = Self::slots(v);
        lemma_slot_names(s, Self::names());
        lemma_present_known(s, Self::names());
        lemma_required::<String>(s, 0, "name"@, v.name);
        lemma_optional::<String>(s, 1, "description"@, v.description);
        lemma_optional::<bool>(s, 2, "bypassed"@, v.bypassed);
    }

    proof fn lemma_fields_faithful(m: Entries) {
        if let Ok(v) = Self::decode_fields(m) {
            Self::lemma_names();
            lemma_unknown_field(m, Self::names());
            let s = lemma_matched_none(m);
            let s = lemma_matched_required::<String>(m, s, "name"@, v.name);
            let s = lemma_matched_optional::<String>(m, s, "description"@, v.description);
            let s = lemma_matched_optional::<bool>(m, s, "bypassed"@, v.bypassed);
            assert(s =~= Self::slots(v));
            lemma_slot_names(s, Self::names());
            lemma_alike_slots(m, s, Self::names());
        }
    }
}

/// One step of the pipeline.
#[derive(Clone, Debug, PartialEq, Eq)]
pub enum PipelineStep {
    Mixer(PipelineStepMixer),
    Filter(PipelineStepFilter),
    Processor(PipelineStepProcessor),
}

/// The mathematical value of a [`PipelineStep`].
pub enum PipelineStepView {
    Mixer(PipelineStepMixerView),
    Filter(PipelineStepFilterView),
    Processor(PipelineStepProcessorView),
}

/// The discriminants of [`PipelineStep`].
#[derive(Clone, Copy, Debug, PartialEq, Eq)]
pub enum PipelineStepKind {
    Mixer,
    Filter,
    Processor,
}

impl Spelled for PipelineStepKind {
    open spec fn name(self) -> Seq<char> {
        match self {
            PipelineStepKind::Mixer => "Mixer"@,
            PipelineStepKind::Filter => "Filter"@,
            PipelineStepKind::Processor => "Processor"@,
        }
    }

    open spec fn named(t: Seq<char>) -> Option<PipelineStepKind> {
        if t == "Mixer"@ {
            Some(PipelineStepKind::Mixer)
        } else if t == "Filter"@ {
            Some(PipelineStepKind::Filter)
        } else if t == "Processor"@ {
            Some(PipelineStepKind::Processor)
        } else {
            None
        }
    }

    fn as_str(&self) -> (r: &'static str) {
        match self {
            PipelineStepKind::Mixer => "Mixer",
            PipelineStepKind::Filter => "Filter",
            PipelineStepKind::Processor => "Processor",
        }
    }

    fn from_name(t: &str) -> (r: Option<PipelineStepKind>) {
        if same_text(t, "Mixer") {
            Some(PipelineStepKind::Mixer)
        } else if same_text(t, "Filter") {
            Some(PipelineStepKind::Filter)
        } else if same_text(t, "Processor") {
            Some(PipelineStepKind::Processor)
        } else {
            None
        }
    }

    proof fn lemma_named(self) {
        reveal_strlit("Mixer");
        reveal_strlit("Filter");
        reveal_strlit("Processor");
        assert("Mixer"@.len() == 5);
        assert("Filter"@.len() == 6);
        assert("Processor"@.len() == 9);
    }
}

impl DeepView for PipelineStep {
    type V = PipelineStepView;

    open spec fn deep_view(&self) -> PipelineStepView {
        match self {
            PipelineStep::Mixer(p) => PipelineStepView::Mixer(p.deep_view()),
            PipelineStep::Filter(p) => PipelineStepView::Filter(p.deep_view()),
            PipelineStep::Processor(p) => PipelineStepView::Processor(p.deep_view()),
        }
    }
}

impl PipelineStep {
    /// The discriminant of a value.
    pub open spec fn kind_of(v: PipelineStepView) -> PipelineStepKind {
        match v {
            PipelineStepView::Mixer(_) => PipelineStepKind::Mixer,
            PipelineStepView::Filter(_) => PipelineStepKind::Filter,
            PipelineStepView::Processor(_) => PipelineStepKind::Processor,
        }
    }

    /// What a value writes beside its discriminant.
    pub open spec fn variant_slots(v: PipelineStepView) -> Seq<Slot> {
        match v {
            PipelineStepView::Mixer(p) => <PipelineStepMixer as Record>::slots(p),
            PipelineStepView::Filter(p) => <PipelineStepFilter as Record>::slots(p),
            PipelineStepView::Processor(p) => <PipelineStepProcessor as Record>::slots(p),
        }
    }

    /// The value that entries stand for, read as the variant that `k` selects.
    pub open spec fn decode_variant(k: PipelineStepKind, m: Entries) -> Result<PipelineStepView, Fault> {
        match k {
            PipelineStepKind::Mixer => match <PipelineStepMixer as Record>::decode_fields(m) {
                Ok(p) => Ok(PipelineStepView::Mixer(p)),
                Err(e) => Err(e),
            },
            PipelineStepKind::Filter => match <PipelineStepFilter as Record>::decode_fields(m) {
                Ok(p) => Ok(PipelineStepView::Filter(p)),
                Err(e) => Err(e),
            },
            PipelineStepKind::Processor => match <PipelineStepProcessor as Record>::decode_fields(m) {
                Ok(p) => Ok(PipelineStepView::Processor(p)),
                Err(e) => Err(e),
            },
        }
    }
}

impl Schema for PipelineStep {
    open spec fn decode(n: NodeView) -> Result<PipelineStepView, Fault> {
        decode_tagged(n, |k: PipelineStepKind, m: Entries| Self::decode_variant(k, m))
    }

    open spec fn encode(v: PipelineStepView) -> NodeView {
        tagged_node(Self::kind_of(v).name(), Self::variant_slots(v))
    }

    fn from_node(n: &Node) -> (r: Result<PipelineStep, SchemaError>) {
        let f = Fields::of(n)?;
        let (k, rest) = f.tagged::<PipelineStepKind>()?;
        match k {
            PipelineStepKind::Mixer => match <PipelineStepMixer as Record>::read_fields(&rest) {
                Ok(p) => Ok(PipelineStep::Mixer(p)),
                Err(e) => Err(e),
            },
            PipelineStepKind::Filter => match <PipelineStepFilter as Record>::read_fields(&rest) {
                Ok(p) => Ok(PipelineStep::Filter(p)),
                Err(e) => Err(e),
            },
            PipelineStepKind::Processor => match <PipelineStepProcessor as Record>::read_fields(&rest) {
                Ok(p) => Ok(PipelineStep::Processor(p)),
                Err(e) => Err(e),
            },
        }
    }

    fn to_node(&self) -> (n: Node) {
        let ghost v = self.deep_view();
        let w = Writer::tagged(&self.kind());
        let w = match self {
            PipelineStep::Mixer(p) => p.write_fields(w),
            PipelineStep::Filter(p) => p.write_fields(w),
            PipelineStep::Processor(p) => p.write_fields(w),
        };
        w.finish()
    }

    proof fn lemma_round_trip(v: PipelineStepView) {
        Self::lemma_variant(v);
        lemma_tagged_round_trip(
            Self::kind_of(v),
            Self::variant_slots(v),
            |k: PipelineStepKind, m: Entries| Self::decode_variant(k, m),
        );
    }

    proof fn lemma_faithful(n: NodeView) {
        if is_record(n) {
            if let Ok(k) = tag_of::<PipelineStepKind>(entries(n)) {
                lemma_untagged_distinct::<PipelineStepKind>(n);
                Self::lemma_variant_like(k, untagged(entries(n)));
                if let Ok(v) = Self::decode_variant(k, untagged(entries(n))) {
                    Self::lemma_variant(v);
                    lemma_tagged_faithful(n, k, Self::variant_slots(v));
                }
            }
        }
    }
}

impl PipelineStep {
    /// Reading what a value writes beside its discriminant, as the variant of
    /// the value, gives the value back; its slots have distinct names, none of
    /// them the key of the discriminant.
    pub proof fn lemma_variant(v: PipelineStepView)
        ensures
            distinct_names(Self::variant_slots(v)),
            !names_slot(Self::variant_slots(v), tag_key()),
            Self::decode_variant(Self::kind_of(v), present(Self::variant_slots(v))) == Ok::<PipelineStepView, Fault>(v),
    {
        match v {
            PipelineStepView::Mixer(p) => {
                <PipelineStepMixer as Record>::lemma_fields(p);
            },
            PipelineStepView::Filter(p) => {
                <PipelineStepFilter as Record>::lemma_fields(p);
            },
            PipelineStepView::Processor(p) => {
                <PipelineStepProcessor as Record>::lemma_fields(p);
            },
        }
    }

    /// What a value writes beside its discriminant is like any entries that
    /// the value was read from as the variant that `k` selects; and the value
    /// is of that variant.
    pub proof fn lemma_variant_like(k: PipelineStepKind, m: Entries)
        requires
            distinct_keys(m),
        ensures
            Self::decode_variant(k, m) matches Ok(v) ==> Self::kind_of(v) == k && alike_entries(
                m,
                present(Self::variant_slots(v)),
            ),
    {
        match k {
            PipelineStepKind::Mixer => {
                <PipelineStepMixer as Record>::lemma_fields_faithful(m);
            },
            PipelineStepKind::Filter => {
                <PipelineStepFilter as Record>::lemma_fields_faithful(m);
            },
            PipelineStepKind::Processor => {
                <PipelineStepProcessor as Record>::lemma_fields_faithful(m);
            },
        }
    }

    /// The discriminant of the value.
    pub fn kind(&self) -> (k: PipelineStepKind)
        ensures
            k == Self::kind_of(self.deep_view()),
    {
        match self {
            PipelineStep::Mixer(_) => PipelineStepKind::Mixer,
            PipelineStep::Filter(_) => PipelineStepKind::Filter,
            PipelineStep::Processor(_) => PipelineStepKind::Processor,
        }
    }
}

} // verus!
