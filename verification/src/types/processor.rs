//! Processors, which work on several channels at once.

use vstd::prelude::*;
use crate::composite::Record;
use crate::error::{Fault, SchemaError};
use crate::fields::{texts, Fields, Writer};
use crate::likeness::{
    alike_entries, lemma_alike_slots, lemma_matched_none, lemma_matched_optional,
    lemma_matched_required, lemma_tagged_faithful, lemma_untagged_distinct,
};
use crate::node::{Node, NodeView, Numeral, NumeralView};
use crate::record::{
    decode_tagged, distinct_keys, distinct_names, entries, is_record, lemma_optional,
    lemma_present_known, lemma_required, lemma_slot_names, lemma_tagged_round_trip,
    lemma_unknown_field, names_slot, optional, present, required, slot, slot_opt, tag_key, tag_of,
    tagged_node, unknown_field, untagged, Entries, Slot,
};
use crate::schema::Schema;
use crate::spelling::Spelled;
use crate::text::same_text;

verus! {

/// A compressor.
#[derive(Clone, Debug, PartialEq, Eq)]
pub struct CompressorParameters {
    pub channels: usize,
    pub monitor_channels: Option<Vec<usize>>,
    pub process_channels: Option<Vec<usize>>,
    pub attack: Numeral,
    pub release: Numeral,
    pub threshold: Numeral,
    pub factor: Numeral,
    pub makeup_gain: Option<Numeral>,
    pub soft_clip: Option<bool>,
    pub clip_limit: Option<Numeral>,
}

/// The mathematical value of a [`CompressorParameters`].
pub struct CompressorParametersView {
    pub channels: usize,
    pub monitor_channels: Option<Seq<usize>>,
    pub process_channels: Option<Seq<usize>>,
    pub attack: NumeralView,
    pub release: NumeralView,
    pub threshold: NumeralView,
    pub factor: NumeralView,
    pub makeup_gain: Option<NumeralView>,
    pub soft_clip: Option<bool>,
    pub clip_limit: Option<NumeralView>,
}

impl DeepView for CompressorParameters {
    type V = CompressorParametersView;

    open spec fn deep_view(&self) -> CompressorParametersView {
        CompressorParametersView {
            channels: self.channels.deep_view(),
            monitor_channels: self.monitor_channels.deep_view(),
            process_channels: self.process_channels.deep_view(),
            attack: self.attack.deep_view(),
            release: self.release.deep_view(),
            threshold: self.threshold.deep_view(),
            factor: self.factor.deep_view(),
            makeup_gain: self.makeup_gain.deep_view(),
            soft_clip: self.soft_clip.deep_view(),
            clip_limit: self.clip_limit.deep_view(),
        }
    }
}

impl CompressorParameters {
    /// The keys that the record declares.
    pub open spec fn names() -> Seq<Seq<char>> {
        seq![
            "channels"@, "monitor_channels"@, "process_channels"@, "attack"@, "release"@,
            "threshold"@, "factor"@, "makeup_gain"@, "soft_clip"@, "clip_limit"@,
        ]
    }

    /// The keys of the record are distinct, and none is the key of a discriminant.
    pub proof fn lemma_names()
        ensures
            Self::names().no_duplicates(),
            !Self::names().contains(tag_key()),
    {
        reveal_strlit("type");
        reveal_strlit("channels");
        reveal_strlit("monitor_channels");
        reveal_strlit("process_channels");
        reveal_strlit("attack");
        reveal_strlit("release");
        reveal_strlit("threshold");
        reveal_strlit("factor");
        reveal_strlit("makeup_gain");
        reveal_strlit("soft_clip");
        reveal_strlit("clip_limit");
        assert("type"@.len() == 4);
        assert("channels"@.len() == 8);
        assert("monitor_channels"@.len() == 16 && "monitor_channels"@[0] == 'm');
        assert("process_channels"@.len() == 16 && "process_channels"@[0] == 'p');
        assert("attack"@.len() == 6 && "attack"@[0] == 'a');
        assert("release"@.len() == 7);
        assert("threshold"@.len() == 9 && "threshold"@[0] == 't');
        assert("factor"@.len() == 6 && "factor"@[0] == 'f');
        assert("makeup_gain"@.len() == 11);
        assert("soft_clip"@.len() == 9 && "soft_clip"@[0] == 's');
        assert("clip_limit"@.len() == 10);
    }
}

impl Record for CompressorParameters {
    open spec fn slots(v: CompressorParametersView) -> Seq<Slot> {
        seq![
            slot::<usize>("channels"@, v.channels),
            slot_opt::<Vec<usize>>("monitor_channels"@, v.monitor_channels),
            slot_opt::<Vec<usize>>("process_channels"@, v.process_channels),
            slot::<Numeral>("attack"@, v.attack),
            slot::<Numeral>("release"@, v.release),
            slot::<Numeral>("threshold"@, v.threshold),
            slot::<Numeral>("factor"@, v.factor),
            slot_opt::<Numeral>("makeup_gain"@, v.makeup_gain),
            slot_opt::<bool>("soft_clip"@, v.soft_clip),
            slot_opt::<Numeral>("clip_limit"@, v.clip_limit),
        ]
    }

    open spec fn decode_fields(m: Entries) -> Result<CompressorParametersView, Fault> {
        let channels = required::<usize>(m, "channels"@);
        let monitor_channels = optional::<Vec<usize>>(m, "monitor_channels"@);
        let process_channels = optional::<Vec<usize>>(m, "process_channels"@);
        let attack = required::<Numeral>(m, "attack"@);
        let release = required::<Numeral>(m, "release"@);
        let threshold = required::<Numeral>(m, "threshold"@);
        let factor = required::<Numeral>(m, "factor"@);
        let makeup_gain = optional::<Numeral>(m, "makeup_gain"@);
        let soft_clip = optional::<bool>(m, "soft_clip"@);
        let clip_limit = optional::<Numeral>(m, "clip_limit"@);
        if let Some(e) = unknown_field(m, Self::names()) {
            Err(e)
        } else if channels is Err {
            Err(channels->Err_0)
        } else if monitor_channels is Err {
            Err(monitor_channels->Err_0)
        } else if process_channels is Err {
            Err(process_channels->Err_0)
        } else if attack is Err {
            Err(attack->Err_0)
        } else if release is Err {
            Err(release->Err_0)
        } else if threshold is Err {
            Err(threshold->Err_0)
        } else if factor is Err {
            Err(factor->Err_0)
        } else if makeup_gain is Err {
            Err(makeup_gain->Err_0)
        } else if soft_clip is Err {
            Err(soft_clip->Err_0)
        } else if clip_limit is Err {
            Err(clip_limit->Err_0)
        } else {
            Ok(
                CompressorParametersView {
                    channels: channels->Ok_0,
                    monitor_channels: monitor_channels->Ok_0,
                    process_channels: process_channels->Ok_0,
                    attack: attack->Ok_0,
                    release: release->Ok_0,
                    threshold: threshold->Ok_0,
                    factor: factor->Ok_0,
                    makeup_gain: makeup_gain->Ok_0,
                    soft_clip: soft_clip->Ok_0,
                    clip_limit: clip_limit->Ok_0,
                },
            )
        }
    }

    fn read_fields(f: &Fields) -> (r: Result<CompressorParameters, SchemaError>) {
        let known = vec![
            "channels", "monitor_channels", "process_channels", "attack", "release", "threshold",
            "factor", "makeup_gain", "soft_clip", "clip_limit",
        ];
        proof {
            assert(texts(known@) =~= Self::names());
        }
        f.deny_unknown(&known)?;
        let channels = f.required::<usize>("channels")?;
        let monitor_channels = f.optional::<Vec<usize>>("monitor_channels")?;
        let process_channels = f.optional::<Vec<usize>>("process_channels")?;
        let attack = f.required::<Numeral>("attack")?;
        let release = f.required::<Numeral>("release")?;
        let threshold = f.required::<Numeral>("threshold")?;
        let factor = f.required::<Numeral>("factor")?;
        let makeup_gain = f.optional::<Numeral>("makeup_gain")?;
        let soft_clip = f.optional::<bool>("soft_clip")?;
        let clip_limit = f.optional::<Numeral>("clip_limit")?;
        Ok(CompressorParameters { channels, monitor_channels, process_channels, attack, release, threshold, factor, makeup_gain, soft_clip, clip_limit })
    }

    fn write_fields(&self, w: Writer) -> (r: Writer) {
        let ghost before = w.slots();
        let w = w.put::<usize>("channels", &self.channels);
        let w = w.put_opt::<Vec<usize>>("monitor_channels", &self.monitor_channels);
        let w = w.put_opt::<Vec<usize>>("process_channels", &self.process_channels);
        let w = w.put::<Numeral>("attack", &self.attack);
        let w = w.put::<Numeral>("release", &self.release);
        let w = w.put::<Numeral>("threshold", &self.threshold);
        let w = w.put::<Numeral>("factor", &self.factor);
        let w = w.put_opt::<Numeral>("makeup_gain", &self.makeup_gain);
        let w = w.put_opt::<bool>("soft_clip", &self.soft_clip);
        let w = w.put_opt::<Numeral>("clip_limit", &self.clip_limit);
        proof {
            assert(w.slots() =~= before + Self::slots(self.deep_view()));
        }
        w
    }

    proof fn lemma_fields(v: CompressorParametersView) {
        Self::lemma_names();
        let s = Self::slots(v);
        lemma_slot_names(s, Self::names());
        lemma_present_known(s, Self::names());
        lemma_required::<usize>(s, 0, "channels"@, v.channels);
        lemma_optional::<Vec<usize>>(s, 1, "monitor_channels"@, v.monitor_channels);
        lemma_optional::<Vec<usize>>(s, 2, "process_channels"@, v.process_channels);
        lemma_required::<Numeral>(s, 3, "attack"@, v.attack);
        lemma_required::<Numeral>(s, 4, "release"@, v.release);
        lemma_required::<Numeral>(s, 5, "threshold"@, v.threshold);
        lemma_required::<Numeral>(s, 6, "factor"@, v.factor);
        lemma_optional::<Numeral>(s, 7, "makeup_gain"@, v.makeup_gain);
        lemma_optional::<bool>(s, 8, "soft_clip"@, v.soft_clip);
        lemma_optional::<Numeral>(s, 9, "clip_limit"@, v.clip_limit);
    }

    proof fn lemma_fields_faithful(m: Entries) {
        if let Ok(v) = Self::decode_fields(m) {
            Self::lemma_names();
            lemma_unknown_field(m, Self::names());
            let s = lemma_matched_none(m);
            let s = lemma_matched_required::<usize>(m, s, "channels"@, v.channels);
            let s = lemma_matched_optional::<Vec<usize>>(m, s, "monitor_channels"@, v.monitor_channels);
            let s = lemma_matched_optional::<Vec<usize>>(m, s, "process_channels"@, v.process_channels);
            let s = lemma_matched_required::<Numeral>(m, s, "attack"@, v.attack);
            let s = lemma_matched_required::<Numeral>(m, s, "release"@, v.release);
            let s = lemma_matched_required::<Numeral>(m, s, "threshold"@, v.threshold);
            let s = lemma_matched_required::<Numeral>(m, s, "factor"@, v.factor);
            let s = lemma_matched_optional::<Numeral>(m, s, "makeup_gain"@, v.makeup_gain);
            let s = lemma_matched_optional::<bool>(m, s, "soft_clip"@, v.soft_clip);
            let s = lemma_matched_optional::<Numeral>(m, s, "clip_limit"@, v.clip_limit);
            assert(s =~= Self::slots(v));
            lemma_slot_names(s, Self::names());
            lemma_alike_slots(m, s, Self::names());
        }
    }
}

/// A noise gate.
#[derive(Clone, Debug, PartialEq, Eq)]
pub struct NoiseGateParameters {
    pub channels: usize,
    pub monitor_channels: Option<Vec<usize>>,
    pub process_channels: Option<Vec<usize>>,
    pub attack: Numeral,
    pub release: Numeral,
    pub threshold: Numeral,
    pub attenuation: Numeral,
}

/// The mathematical value of a [`NoiseGateParameters`].
pub struct NoiseGateParametersView {
    pub channels: usize,
    pub monitor_channels: Option<Seq<usize>>,
    pub process_channels: Option<Seq<usize>>,
    pub attack: NumeralView,
    pub release: NumeralView,
    pub threshold: NumeralView,
    pub attenuation: NumeralView,
}

impl DeepView for NoiseGateParameters {
    type V = NoiseGateParametersView;

    open spec fn deep_view(&self) -> NoiseGateParametersView {
        NoiseGateParametersView {
            channels: self.channels.deep_view(),
            monitor_channels: self.monitor_channels.deep_view(),
            process_channels: self.process_channels.deep_view(),
            attack: self.attack.deep_view(),
            release: self.release.deep_view(),
            threshold: self.threshold.deep_view(),
            attenuation: self.attenuation.deep_view(),
        }
    }
}

impl NoiseGateParameters {
    /// The keys that the record declares.
    pub open spec fn names() -> Seq<Seq<char>> {
        seq![
            "channels"@, "monitor_channels"@, "process_channels"@, "attack"@, "release"@,
            "threshold"@, "attenuation"@,
        ]
    }

    /// The keys of the record are distinct, and none is the key of a discriminant.
    pub proof fn lemma_names()
        ensures
            Self::names().no_duplicates(),
            !Self::names().contains(tag_key()),
    {
        reveal_strlit("type");
        reveal_strlit("channels");
        reveal_strlit("monitor_channels");
        reveal_strlit("process_channels");
        reveal_strlit("attack");
        reveal_strlit("release");
        reveal_strlit("threshold");
        reveal_strlit("attenuation");
        assert("type"@.len() == 4);
        assert("channels"@.len() == 8);
        assert("monitor_channels"@.len() == 16 && "monitor_channels"@[0] == 'm');
        assert("process_channels"@.len() == 16 && "process_channels"@[0] == 'p');
        assert("attack"@.len() == 6);
        assert("release"@.len() == 7);
        assert("threshold"@.len() == 9);
        assert("attenuation"@.len() == 11);
    }
}

impl Record for NoiseGateParameters {
    open spec fn slots(v: NoiseGateParametersView) -> Seq<Slot> {
        seq![
            slot::<usize>("channels"@, v.channels),
            slot_opt::<Vec<usize>>("monitor_channels"@, v.monitor_channels),
            slot_opt::<Vec<usize>>("process_channels"@, v.process_channels),
            slot::<Numeral>("attack"@, v.attack),
            slot::<Numeral>("release"@, v.release),
            slot::<Numeral>("threshold"@, v.threshold),
            slot::<Numeral>("attenuation"@, v.attenuation),
        ]
    }

    open spec fn decode_fields(m: Entries) -> Result<NoiseGateParametersView, Fault> {
        let channels = required::<usize>(m, "channels"@);
        let monitor_channels = optional::<Vec<usize>>(m, "monitor_channels"@);
        let process_channels = optional::<Vec<usize>>(m, "process_channels"@);
        let attack = required::<Numeral>(m, "attack"@);
        let release = required::<Numeral>(m, "release"@);
        let threshold = required::<Numeral>(m, "threshold"@);
        let attenuation = required::<Numeral>(m, "attenuation"@);
        if let Some(e) = unknown_field(m, Self::names()) {
            Err(e)
        } else if channels is Err {
            Err(channels->Err_0)
        } else if monitor_channels is Err {
            Err(monitor_channels->Err_0)
        } else if process_channels is Err {
            Err(process_channels->Err_0)
        } else if attack is Err {
            Err(attack->Err_0)
        } else if release is Err {
            Err(release->Err_0)
        } else if threshold is Err {
            Err(threshold->Err_0)
        } else if attenuation is Err {
            Err(attenuation->Err_0)
        } else {
            Ok(
                NoiseGateParametersView {
                    channels: channels->Ok_0,
                    monitor_channels: monitor_channels->Ok_0,
                    process_channels: process_channels->Ok_0,
                    attack: attack->Ok_0,
                    release: release->Ok_0,
                    threshold: threshold->Ok_0,
                    attenuation: attenuation->Ok_0,
                },
            )
        }
    }

    fn read_fields(f: &Fields) -> (r: Result<NoiseGateParameters, SchemaError>) {
        let known = vec![
            "channels", "monitor_channels", "process_channels", "attack", "release", "threshold",
            "attenuation",
        ];
        proof {
            assert(texts(known@) =~= Self::names());
        }
        f.deny_unknown(&known)?;
        let channels = f.required::<usize>("channels")?;
        let monitor_channels = f.optional::<Vec<usize>>("monitor_channels")?;
        let process_channels = f.optional::<Vec<usize>>("process_channels")?;
        let attack = f.required::<Numeral>("attack")?;
        let release = f.required::<Numeral>("release")?;
        let threshold = f.required::<Numeral>("threshold")?;
        let attenuation = f.required::<Numeral>("attenuation")?;
        Ok(NoiseGateParameters { channels, monitor_channels, process_channels, attack, release, threshold, attenuation })
    }

    fn write_fields(&self, w: Writer) -> (r: Writer) {
        let ghost before = w.slots();
        let w = w.put::<usize>("channels", &self.channels);
        let w = w.put_opt::<Vec<usize>>("monitor_channels", &self.monitor_channels);
        let w = w.put_opt::<Vec<usize>>("process_channels", &self.process_channels);
        let w = w.put::<Numeral>("attack", &self.attack);
        let w = w.put::<Numeral>("release", &self.release);
        let w = w.put::<Numeral>("threshold", &self.threshold);
        let w = w.put::<Numeral>("attenuation", &self.attenuation);
        proof {
            assert(w.slots() =~= before + Self::slots(self.deep_view()));
        }
        w
    }

    proof fn lemma_fields(v: NoiseGateParametersView) {
        Self::lemma_names();
        let s = Self::slots(v);
        lemma_slot_names(s, Self::names());
        lemma_present_known(s, Self::names());
        lemma_required::<usize>(s, 0, "channels"@, v.channels);
        lemma_optional::<Vec<usize>>(s, 1, "monitor_channels"@, v.monitor_channels);
        lemma_optional::<Vec<usize>>(s, 2, "process_channels"@, v.process_channels);
        lemma_required::<Numeral>(s, 3, "attack"@, v.attack);
        lemma_required::<Numeral>(s, 4, "release"@, v.release);
        lemma_required::<Numeral>(s, 5, "threshold"@, v.threshold);
        lemma_required::<Numeral>(s, 6, "attenuation"@, v.attenuation);
    }

    proof fn lemma_fields_faithful(m: Entries) {
        if let Ok(v) = Self::decode_fields(m) {
            Self::lemma_names();
            lemma_unknown_field(m, Self::names());
            let s = lemma_matched_none(m);
            let s = lemma_matched_required::<usize>(m, s, "channels"@, v.channels);
            let s = lemma_matched_optional::<Vec<usize>>(m, s, "monitor_channels"@, v.monitor_channels);
            let s = lemma_matched_optional::<Vec<usize>>(m, s, "process_channels"@, v.process_channels);
            let s = lemma_matched_required::<Numeral>(m, s, "attack"@, v.attack);
            let s = lemma_matched_required::<Numeral>(m, s, "release"@, v.release);
            let s = lemma_matched_required::<Numeral>(m, s, "threshold"@, v.threshold);
            let s = lemma_matched_required::<Numeral>(m, s, "attenuation"@, v.attenuation);
            assert(s =~= Self::slots(v));
            lemma_slot_names(s, Self::names());
            lemma_alike_slots(m, s, Self::names());
        }
    }
}

/// A processor: its kind, what it is for, and its parameters.
#[derive(Clone, Debug, PartialEq, Eq)]
pub enum Processor {
    Compressor { description: Option<String>, parameters: CompressorParameters },
    NoiseGate { description: Option<String>, parameters: NoiseGateParameters },
}

/// The mathematical value of a [`Processor`].
pub enum ProcessorView {
    Compressor { description: Option<Seq<char>>, parameters: CompressorParametersView },
    NoiseGate { description: Option<Seq<char>>, parameters: NoiseGateParametersView },
}

/// The discriminants of [`Processor`].
#[derive(Clone, Copy, Debug, PartialEq, Eq)]
pub enum ProcessorKind {
    Compressor,
    NoiseGate,
}

impl Spelled for ProcessorKind {
    open spec fn name(self) -> Seq<char> {
        match self {
            ProcessorKind::Compressor => "Compressor"@,
            ProcessorKind::NoiseGate => "NoiseGate"@,
        }
    }

    open spec fn named(t: Seq<char>) -> Option<ProcessorKind> {
        if t == "Compressor"@ {
            Some(ProcessorKind::Compressor)
        } else if t == "NoiseGate"@ {
            Some(ProcessorKind::NoiseGate)
        } else {
            None
        }
    }

    fn as_str(&self) -> (r: &'static str) {
        match self {
            ProcessorKind::Compressor => "Compressor",
            ProcessorKind::NoiseGate => "NoiseGate",
        }
    }

    fn from_name(t: &str) -> (r: Option<ProcessorKind>) {
        if same_text(t, "Compressor") {
            Some(ProcessorKind::Compressor)
        } else if same_text(t, "NoiseGate") {
            Some(ProcessorKind::NoiseGate)
        } else {
            None
        }
    }

    proof fn lemma_named(self) {
        reveal_strlit("Compressor");
        reveal_strlit("NoiseGate");
        assert("Compressor"@.len() == 10);
        assert("NoiseGate"@.len() == 9);
    }
}

impl DeepView for Processor {
    type V = ProcessorView;

    open spec fn deep_view(&self) -> ProcessorView {
        match self {
            Processor::Compressor { description, parameters } => ProcessorView::Compressor {
                description: description.deep_view(),
                parameters: parameters.deep_view(),
            },
            Processor::NoiseGate { description, parameters } => ProcessorView::NoiseGate {
                description: description.deep_view(),
                parameters: parameters.deep_view(),
            },
        }
    }
}

impl Processor {
    /// The keys that a variant with the fields `description`, `parameters` declares.
    pub open spec fn names_description_parameters() -> Seq<Seq<char>> {
        seq!["description"@, "parameters"@]
    }

    /// The keys of a variant with the fields `description`, `parameters` are distinct, and none is the key of a discriminant.
    pub proof fn lemma_names_description_parameters()
        ensures
            Self::names_description_parameters().no_duplicates(),
            !Self::names_description_parameters().contains(tag_key()),
    {
        reveal_strlit("type");
        reveal_strlit("description");
        reveal_strlit("parameters");
        assert("type"@.len() == 4);
        assert("description"@.len() == 11);
        assert("parameters"@.len() == 10);
    }

    /// What a variant with the fields `description`, `parameters` writes: one slot for each field.
    pub open spec fn slots_description_parameters<P: Schema>(description: Option<Seq<char>>, parameters: P::V) -> Seq<Slot> {
        seq![
            slot_opt::<String>("description"@, description),
            slot::<P>("parameters"@, parameters),
        ]
    }

    /// What entries stand for, read as a variant with the fields `description`, `parameters`.
    pub open spec fn decode_description_parameters<P: Schema>(m: Entries) -> Result<(Option<Seq<char>>, P::V), Fault> {
        let description = optional::<String>(m, "description"@);
        let parameters = required::<P>(m, "parameters"@);
        if let Some(e) = unknown_field(m, Self::names_description_parameters()) {
            Err(e)
        } else if description is Err {
            Err(description->Err_0)
        } else if parameters is Err {
            Err(parameters->Err_0)
        } else {
            Ok((description->Ok_0, parameters->Ok_0))
        }
    }

    /// Reads a variant with the fields `description`, `parameters`.
    pub fn read_description_parameters<P: Schema>(f: &Fields) -> (r: Result<(Option<String>, P), SchemaError>)
        ensures
            r matches Ok(x) ==> Self::decode_description_parameters::<P>(f@) == Ok::<(Option<Seq<char>>, P::V), Fault>(x.deep_view()),
            r matches Err(e) ==> Self::decode_description_parameters::<P>(f@) == Err::<(Option<Seq<char>>, P::V), Fault>(e.deep_view()),
    {
        let known = vec!["description", "parameters"];
        proof {
            assert(texts(known@) =~= Self::names_description_parameters());
        }
        f.deny_unknown(&known)?;
        let description = f.optional::<String>("description")?;
        let parameters = f.required::<P>("parameters")?;
        Ok((description, parameters))
    }

    /// Writes the fields of a variant with the fields `description`, `parameters` after what `w` holds.
    pub fn write_description_parameters<P: Schema>(w: Writer, description: &Option<String>, parameters: &P) -> (r: Writer)
        ensures
            r.slots() == w.slots() + Self::slots_description_parameters::<P>(description.deep_view(), parameters.deep_view()),
    {
        let ghost before = w.slots();
        let w = w.put_opt::<String>("description", description);
        let w = w.put::<P>("parameters", parameters);
        proof {
            assert(w.slots() =~= before + Self::slots_description_parameters::<P>(description.deep_view(), parameters.deep_view()));
        }
        w
    }

    /// Reading what a variant with the fields `description`, `parameters` wrote gives the fields back.
    pub proof fn lemma_description_parameters<P: Schema>(description: Option<Seq<char>>, parameters: P::V)
        ensures
            distinct_names(Self::slots_description_parameters::<P>(description, parameters)),
            !names_slot(Self::slots_description_parameters::<P>(description, parameters), tag_key()),
            Self::decode_description_parameters::<P>(present(Self::slots_description_parameters::<P>(description, parameters))) == Ok::<(Option<Seq<char>>, P::V), Fault>(
                (description, parameters),
            ),
    {
        Self::lemma_names_description_parameters();
        let s = Self::slots_description_parameters::<P>(description, parameters);
        lemma_slot_names(s, Self::names_description_parameters());
        lemma_present_known(s, Self::names_description_parameters());
        lemma_optional::<String>(s, 0, "description"@, description);
        lemma_required::<P>(s, 1, "parameters"@, parameters);
    }

    /// What a variant with the fields `description`, `parameters` writes is like any entries that its fields were read from.
    pub proof fn lemma_like_description_parameters<P: Schema>(m: Entries)
        requires
            distinct_keys(m),
        ensures
            Self::decode_description_parameters::<P>(m) matches Ok((description, parameters)) ==> alike_entries(
                m,
                present(Self::slots_description_parameters::<P>(description, parameters)),
            ),
    {
        if let Ok((description, parameters)) = Self::decode_description_parameters::<P>(m) {
            Self::lemma_names_description_parameters();
            lemma_unknown_field(m, Self::names_description_parameters());
            let s = lemma_matched_none(m);
            let s = lemma_matched_optional::<String>(m, s, "description"@, description);
            let s = lemma_matched_required::<P>(m, s, "parameters"@, parameters);
            assert(s =~= Self::slots_description_parameters::<P>(description, parameters));
            lemma_slot_names(s, Self::names_description_parameters());
            lemma_alike_slots(m, s, Self::names_description_parameters());
        }
    }

    /// The discriminant of a value.
    pub open spec fn kind_of(v: ProcessorView) -> ProcessorKind {
        match v {
            ProcessorView::Compressor { .. } => ProcessorKind::Compressor,
            ProcessorView::NoiseGate { .. } => ProcessorKind::NoiseGate,
        }
    }

    /// What a value writes beside its discriminant.
    pub open spec fn variant_slots(v: ProcessorView) -> Seq<Slot> {
        match v {
            ProcessorView::Compressor { description, parameters } => Self::slots_description_parameters::<CompressorParameters>(description, parameters),
            ProcessorView::NoiseGate { description, parameters } => Self::slots_description_parameters::<NoiseGateParameters>(description, parameters),
        }
    }

    /// The value that entries stand for, read as the variant that `k` selects.
    pub open spec fn decode_variant(k: ProcessorKind, m: Entries) -> Result<ProcessorView, Fault> {
        match k {
            ProcessorKind::Compressor => match Self::decode_description_parameters::<CompressorParameters>(m) {
                Ok((description, parameters)) => Ok(ProcessorView::Compressor { description, parameters }),
                Err(e) => Err(e),
            },
            ProcessorKind::NoiseGate => match Self::decode_description_parameters::<NoiseGateParameters>(m) {
                Ok((description, parameters)) => Ok(ProcessorView::NoiseGate { description, parameters }),
                Err(e) => Err(e),
            },
        }
    }
}

impl Schema for Processor {
    open spec fn decode(n: NodeView) -> Result<ProcessorView, Fault> {
        decode_tagged(n, |k: ProcessorKind, m: Entries| Self::decode_variant(k, m))
    }

    open spec fn encode(v: ProcessorView) -> NodeView {
        tagged_node(Self::kind_of(v).name(), Self::variant_slots(v))
    }

    fn from_node(n: &Node) -> (r: Result<Processor, SchemaError>) {
        let f = Fields::of(n)?;
        let (k, rest) = f.tagged::<ProcessorKind>()?;
        match k {
            ProcessorKind::Compressor => match Self::read_description_parameters::<CompressorParameters>(&rest) {
                Ok((description, parameters)) => Ok(Processor::Compressor { description, parameters }),
                Err(e) => Err(e),
            },
            ProcessorKind::NoiseGate => match Self::read_description_parameters::<NoiseGateParameters>(&rest) {
                Ok((description, parameters)) => Ok(Processor::NoiseGate { description, parameters }),
                Err(e) => Err(e),
            },
        }
    }

    fn to_node(&self) -> (n: Node) {
        let ghost v = self.deep_view();
        let w = Writer::tagged(&self.kind());
        let w = match self {
            Processor::Compressor { description, parameters } => Self::write_description_parameters::<CompressorParameters>(w, description, parameters),
            Processor::NoiseGate { description, parameters } => Self::write_description_parameters::<NoiseGateParameters>(w, description, parameters),
        };
        w.finish()
    }

    proof fn lemma_round_trip(v: ProcessorView) {
        Self::lemma_variant(v);
        lemma_tagged_round_trip(
            Self::kind_of(v),
            Self::variant_slots(v),
            |k: ProcessorKind, m: Entries| Self::decode_variant(k, m),
        );
    }

    proof fn lemma_faithful(n: NodeView) {
        if is_record(n) {
            if let Ok(k) = tag_of::<ProcessorKind>(entries(n)) {
                lemma_untagged_distinct::<ProcessorKind>(n);
                Self::lemma_variant_like(k, untagged(entries(n)));
                if let Ok(v) = Self::decode_variant(k, untagged(entries(n))) {
                    Self::lemma_variant(v);
                    lemma_tagged_faithful(n, k, Self::variant_slots(v));
                }
            }
        }
    }
}

impl Processor {
    /// Reading what a value writes beside its discriminant, as the variant of
    /// the value, gives the value back; its slots have distinct names, none of
    /// them the key of the discriminant.
    pub proof fn lemma_variant(v: ProcessorView)
        ensures
            distinct_names(Self::variant_slots(v)),
            !names_slot(Self::variant_slots(v), tag_key()),
            Self::decode_variant(Self::kind_of(v), present(Self::variant_slots(v))) == Ok::<ProcessorView, Fault>(v),
    {
        match v {
            ProcessorView::Compressor { description, parameters } => {
                Self::lemma_description_parameters::<CompressorParameters>(description, parameters);
            },
            ProcessorView::NoiseGate { description, parameters } => {
                Self::lemma_description_parameters::<NoiseGateParameters>(description, parameters);
            },
        }
    }

    /// What a value writes beside its discriminant is like any entries that
    /// the value was read from as the variant that `k` selects; and the value
    /// is of that variant.
    pub proof fn lemma_variant_like(k: ProcessorKind, m: Entries)
        requires
            distinct_keys(m),
        ensures
            Self::decode_variant(k, m) matches Ok(v) ==> Self::kind_of(v) == k && alike_entries(
                m,
                present(Self::variant_slots(v)),
            ),
    {
        match k {
            ProcessorKind::Compressor => {
                Self::lemma_like_description_parameters::<CompressorParameters>(m);
            },
            ProcessorKind::NoiseGate => {
                Self::lemma_like_description_parameters::<NoiseGateParameters>(m);
            },
        }
    }

    /// The discriminant of the value.
    pub fn kind(&self) -> (k: ProcessorKind)
        ensures
            k == Self::kind_of(self.deep_view()),
    {
        match self {
            Processor::Compressor { .. } => ProcessorKind::Compressor,
            Processor::NoiseGate { .. } => ProcessorKind::NoiseGate,
        }
    }
}

} // verus!
