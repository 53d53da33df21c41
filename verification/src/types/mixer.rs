//! Mixers: which channels go into which, and how strongly.

use vstd::prelude::*;
use crate::composite::Record;
use crate::error::{Fault, SchemaError};
use crate::fields::{texts, Fields, Writer};
use crate::likeness::{
    lemma_alike_slots, lemma_matched_none, lemma_matched_optional, lemma_matched_required,
};
use crate::node::{Numeral, NumeralView};
use crate::record::{
    lemma_optional, lemma_present_known, lemma_required, lemma_slot_names, lemma_unknown_field,
    optional, required, slot, slot_opt, tag_key, unknown_field, Entries, Slot,
};
use super::common::GainScale;

verus! {

/// How many channels go into a mixer and how many come out.
#[derive(Clone, Debug, PartialEq, Eq)]
pub struct MixerChannels {
    /// Written under the key `in`.
    pub input: usize,
    pub out: usize,
}

impl DeepView for MixerChannels {
    type V = MixerChannels;

    open spec fn deep_view(&self) -> MixerChannels {
        *self
    }
}

impl MixerChannels {
    /// The keys that the record declares.
    pub open spec fn names() -> Seq<Seq<char>> {
        seq!["in"@, "out"@]
    }

    /// The keys of the record are distinct, and none is the key of a discriminant.
    pub proof fn lemma_names()
        ensures
            Self::names().no_duplicates(),
            !Self::names().contains(tag_key()),
    {
        reveal_strlit("type");
        reveal_strlit("in");
        reveal_strlit("out");
        assert("type"@.len() == 4);
        assert("in"@.len() == 2);
        assert("out"@.len() == 3);
    }
}

impl Record for MixerChannels {
    open spec fn slots(v: MixerChannels) -> Seq<Slot> {
        seq![
            slot::<usize>("in"@, v.input),
            slot::<usize>("out"@, v.out),
        ]
    }

    open spec fn decode_fields(m: Entries) -> Result<MixerChannels, Fault> {
        let input = required::<usize>(m, "in"@);
        let out = required::<usize>(m, "out"@);
        if let Some(e) = unknown_field(m, Self::names()) {
            Err(e)
        } else if input is Err {
            Err(input->Err_0)
        } else if out is Err {
            Err(out->Err_0)
        } else {
            Ok(MixerChannels { input: input->Ok_0, out: out->Ok_0 })
        }
    }

    fn read_fields(f: &Fields) -> (r: Result<MixerChannels, SchemaError>) {
        let known = vec!["in", "out"];
        proof {
            assert(texts(known@) =~= Self::names());
        }
        f.deny_unknown(&known)?;
        let input = f.required::<usize>("in")?;
        let out = f.required::<usize>("out")?;
        Ok(MixerChannels { input, out })
    }

    fn write_fields(&self, w: Writer) -> (r: Writer) {
        let ghost before = w.slots();
        let w = w.put::<usize>("in", &self.input);
        let w = w.put::<usize>("out", &self.out);
        proof {
            assert(w.slots() =~= before + Self::slots(self.deep_view()));
        }
        w
    }

    proof fn lemma_fields(v: MixerChannels) {
        Self::lemma_names();
        let s = Self::slots(v);
        lemma_slot_names(s, Self::names());
        lemma_present_known(s, Self::names());
        lemma_required::<usize>(s, 0, "in"@, v.input);
        lemma_required::<usize>(s, 1, "out"@, v.out);
    }

    proof fn lemma_fields_faithful(m: Entries) {
        if let Ok(v) = Self::decode_fields(m) {
            Self::lemma_names();
            lemma_unknown_field(m, Self::names());
            let s = lemma_matched_none(m);
            let s = lemma_matched_required::<usize>(m, s, "in"@, v.input);
            let s = lemma_matched_required::<usize>(m, s, "out"@, v.out);
            assert(s =~= Self::slots(v));
            lemma_slot_names(s, Self::names());
            lemma_alike_slots(m, s, Self::names());
        }
    }
}

/// One channel that goes into a channel of the output.
#[derive(Clone, Debug, PartialEq, Eq)]
pub struct MixerSource {
    pub channel: usize,
    pub gain: Option<Numeral>,
    pub inverted: Option<bool>,
    pub mute: Option<bool>,
    pub scale: Option<GainScale>,
}

/// The mathematical value of a [`MixerSource`].
pub struct MixerSourceView {
    pub channel: usize,
    pub gain: Option<NumeralView>,
    pub inverted: Option<bool>,
    pub mute: Option<bool>,
    pub scale: Option<GainScale>,
}

impl DeepView for MixerSource {
    type V = MixerSourceView;

    open spec fn deep_view(&self) -> MixerSourceView {
        MixerSourceView {
            channel: self.channel.deep_view(),
            gain: self.gain.deep_view(),
            inverted: self.inverted.deep_view(),
            mute: self.mute.deep_view(),
            scale: self.scale.deep_view(),
        }
    }
}

impl MixerSource {
    /// The keys that the record declares.
    pub open spec fn names() -> Seq<Seq<char>> {
        seq!["channel"@, "gain"@, "inverted"@, "mute"@, "scale"@]
    }

    /// The keys of the record are distinct, and none is the key of a discriminant.
    pub proof fn lemma_names()
        ensures
            Self::names().no_duplicates(),
            !Self::names().contains(tag_key()),
    {
        reveal_strlit("type");
        reveal_strlit("channel");
        reveal_strlit("gain");
        reveal_strlit("inverted");
        reveal_strlit("mute");
        reveal_strlit("scale");
        assert("type"@.len() == 4 && "type"@[0] == 't');
        assert("channel"@.len() == 7);
        assert("gain"@.len() == 4 && "gain"@[0] == 'g');
        assert("inverted"@.len() == 8);
        assert("mute"@.len() == 4 && "mute"@[0] == 'm');
        assert("scale"@.len() == 5);
    }
}

impl Record for MixerSource {
    open spec fn slots(v: MixerSourceView) -> Seq<Slot> {
        seq![
            slot::<usize>("channel"@, v.channel),
            slot_opt::<Numeral>("gain"@, v.gain),
            slot_opt::<bool>("inverted"@, v.inverted),
            slot_opt::<bool>("mute"@, v.mute),
            slot_opt::<GainScale>("scale"@, v.scale),
        ]
    }

    open spec fn decode_fields(m: Entries) -> Result<MixerSourceView, Fault> {
        let channel = required::<usize>(m, "channel"@);
        let gain = optional::<Numeral>(m, "gain"@);
        let inverted = optional::<bool>(m, "inverted"@);
        let mute = optional::<bool>(m, "mute"@);
        let scale = optional::<GainScale>(m, "scale"@);
        if let Some(e) = unknown_field(m, Self::names()) {
            Err(e)
        } else if channel is Err {
            Err(channel->Err_0)
        } else if gain is Err {
            Err(gain->Err_0)
        } else if inverted is Err {
            Err(inverted->Err_0)
        } else if mute is Err {
            Err(mute->Err_0)
        } else if scale is Err {
            Err(scale->Err_0)
        } else {
            Ok(
                MixerSourceView {
                    channel: channel->Ok_0,
                    gain: gain->Ok_0,
                    inverted: inverted->Ok_0,
                    mute: mute->Ok_0,
                    scale: scale->Ok_0,
                },
            )
        }
    }

    fn read_fields(f: &Fields) -> (r: Result<MixerSource, SchemaError>) {
        let known = vec!["channel", "gain", "inverted", "mute", "scale"];
        proof {
            assert(texts(known@) =~= Self::names());
        }
        f.deny_unknown(&known)?;
        let channel = f.required::<usize>("channel")?;
        let gain = f.optional::<Numeral>("gain")?;
        let inverted = f.optional::<bool>("inverted")?;
        let mute = f.optional::<bool>("mute")?;
        let scale = f.optional::<GainScale>("scale")?;
        Ok(MixerSource { channel, gain, inverted, mute, scale })
    }

    fn write_fields(&self, w: Writer) -> (r: Writer) {
        let ghost before = w.slots();
        let w = w.put::<usize>("channel", &self.channel);
        let w = w.put_opt::<Numeral>("gain", &self.gain);
        let w = w.put_opt::<bool>("inverted", &self.inverted);
        let w = w.put_opt::<bool>("mute", &self.mute);
        let w = w.put_opt::<GainScale>("scale", &self.scale);
        proof {
            assert(w.slots() =~= before + Self::slots(self.deep_view()));
        }
        w
    }

    proof fn lemma_fields(v: MixerSourceView) {
        Self::lemma_names();
        let s = Self::slots(v);
        lemma_slot_names(s, Self::names());
        lemma_present_known(s, Self::names());
        lemma_required::<usize>(s, 0, "channel"@, v.channel);
        lemma_optional::<Numeral>(s, 1, "gain"@, v.gain);
        lemma_optional::<bool>(s, 2, "inverted"@, v.inverted);
        lemma_optional::<bool>(s, 3, "mute"@, v.mute);
        lemma_optional::<GainScale>(s, 4, "scale"@, v.scale);
    }

    proof fn lemma_fields_faithful(m: Entries) {
        if let Ok(v) = Self::decode_fields(m) {
            Self::lemma_names();
            lemma_unknown_field(m, Self::names());
            let s = lemma_matched_none(m);
            let s = lemma_matched_required::<usize>(m, s, "channel"@, v.channel);
            let s = lemma_matched_optional::<Numeral>(m, s, "gain"@, v.gain);
            let s = lemma_matched_optional::<bool>(m, s, "inverted"@, v.inverted);
            let s = lemma_matched_optional::<bool>(m, s, "mute"@, v.mute);
            let s = lemma_matched_optional::<GainScale>(m, s, "scale"@, v.scale);
            assert(s =~= Self::slots(v));
            lemma_slot_names(s, Self::names());
            lemma_alike_slots(m, s, Self::names());
        }
    }
}

/// One channel of the output and the channels that go into it.
#[derive(Clone, Debug, PartialEq, Eq)]
pub struct MixerMapping {
    pub dest: usize,
    pub sources: Vec<MixerSource>,
    pub mute: Option<bool>,
}

/// The mathematical value of a [`MixerMapping`].
pub struct MixerMappingView {
    pub dest: usize,
    pub sources: Seq<MixerSourceView>,
    pub mute: Option<bool>,
}

impl DeepView for MixerMapping {
    type V = MixerMappingView;

    open spec fn deep_view(&self) -> MixerMappingView {
        MixerMappingView {
            dest: self.dest.deep_view(),
            sources: self.sources.deep_view(),
            mute: self.mute.deep_view(),
        }
    }
}

impl MixerMapping {
    /// The keys that the record declares.
    pub open spec fn names() -> Seq<Seq<char>> {
        seq!["dest"@, "sources"@, "mute"@]
    }

    /// The keys of the record are distinct, and none is the key of a discriminant.
    pub proof fn lemma_names()
        ensures
            Self::names().no_duplicates(),
            !Self::names().contains(tag_key()),
    {
        reveal_strlit("type");
        reveal_strlit("dest");
        reveal_strlit("sources");
        reveal_strlit("mute");
        assert("type"@.len() == 4 && "type"@[0] == 't');
        assert("dest"@.len() == 4 && "dest"@[0] == 'd');
        assert("sources"@.len() == 7);
        assert("mute"@.len() == 4 && "mute"@[0] == 'm');
    }
}

impl Record for MixerMapping {
    open spec fn slots(v: MixerMappingView) -> Seq<Slot> {
        seq![
            slot::<usize>("dest"@, v.dest),
            slot::<Vec<MixerSource>>("sources"@, v.sources),
            slot_opt::<bool>("mute"@, v.mute),
        ]
    }

    open spec fn decode_fields(m: Entries) -> Result<MixerMappingView, Fault> {
        let dest = required::<usize>(m, "dest"@);
        let sources = required::<Vec<MixerSource>>(m, "sources"@);
        let mute = optional::<bool>(m, "mute"@);
        if let Some(e) = unknown_field(m, Self::names()) {
            Err(e)
        } else if dest is Err {
            Err(dest->Err_0)
        } else if sources is Err {
            Err(sources->Err_0)
        } else if mute is Err {
            Err(mute->Err_0)
        } else {
            Ok(MixerMappingView { dest: dest->Ok_0, sources: sources->Ok_0, mute: mute->Ok_0 })
        }
    }

    fn read_fields(f: &Fields) -> (r: Result<MixerMapping, SchemaError>) {
        let known = vec!["dest", "sources", "mute"];
        proof {
            assert(texts(known@) =~= Self::names());
        }
        f.deny_unknown(&known)?;
        let dest = f.required::<usize>("dest")?;
        let sources = f.required::<Vec<MixerSource>>("sources")?;
        let mute = f.optional::<bool>("mute")?;
        Ok(MixerMapping { dest, sources, mute })
    }

    fn write_fields(&self, w: Writer) -> (r: Writer) {
        let ghost before = w.slots();
        let w = w.put::<usize>("dest", &self.dest);
        let w = w.put::<Vec<MixerSource>>("sources", &self.sources);
        let w = w.put_opt::<bool>("mute", &self.mute);
        proof {
            assert(w.slots() =~= before + Self::slots(self.deep_view()));
        }
        w
    }

    proof fn lemma_fields(v: MixerMappingView) {
        Self::lemma_names();
        let s = Self::slots(v);
        lemma_slot_names(s, Self::names());
        lemma_present_known(s, Self::names());
        lemma_required::<usize>(s, 0, "dest"@, v.dest);
        lemma_required::<Vec<MixerSource>>(s, 1, "sources"@, v.sources);
        lemma_optional::<bool>(s, 2, "mute"@, v.mute);
    }

    proof fn lemma_fields_faithful(m: Entries) {
        if let Ok(v) = Self::decode_fields(m) {
            Self::lemma_names();
            lemma_unknown_field(m, Self::names());
            let s = lemma_matched_none(m);
            let s = lemma_matched_required::<usize>(m, s, "dest"@, v.dest);
            let s = lemma_matched_required::<Vec<MixerSource>>(m, s, "sources"@, v.sources);
            let s = lemma_matched_optional::<bool>(m, s, "mute"@, v.mute);
            assert(s =~= Self::slots(v));
            lemma_slot_names(s, Self::names());
            lemma_alike_slots(m, s, Self::names());
        }
    }
}

/// A mixer.
#[derive(Clone, Debug, PartialEq, Eq)]
pub struct Mixer {
    pub description: Option<String>,
    pub channels: MixerChannels,
    pub mapping: Vec<MixerMapping>,
    /// A label for each channel, in order; a null for a channel without one.
    pub labels: Option<Vec<Option<String>>>,
}

/// The mathematical value of a [`Mixer`].
pub struct MixerView {
    pub description: Option<Seq<char>>,
    pub channels: MixerChannels,
    pub mapping: Seq<MixerMappingView>,
    pub labels: Option<Seq<Option<Seq<char>>>>,
}

impl DeepView for Mixer {
    type V = MixerView;

    open spec fn deep_view(&self) -> MixerView {
        MixerView {
            description: self.description.deep_view(),
            channels: self.channels.deep_view(),
            mapping: self.mapping.deep_view(),
            labels: self.labels.deep_view(),
        }
    }
}

impl Mixer {
    /// The keys that the record declares.
    pub open spec fn names() -> Seq<Seq<char>> {
        seq!["description"@, "channels"@, "mapping"@, "labels"@]
    }

    /// The keys of the record are distinct, and none is the key of a discriminant.
    pub proof fn lemma_names()
        ensures
            Self::names().no_duplicates(),
            !Self::names().contains(tag_key()),
    {
        reveal_strlit("type");
        reveal_strlit("description");
        reveal_strlit("channels");
        reveal_strlit("mapping");
        reveal_strlit("labels");
        assert("type"@.len() == 4);
        assert("description"@.len() == 11);
        assert("channels"@.len() == 8);
        assert("mapping"@.len() == 7);
        assert("labels"@.len() == 6);
    }
}

impl Record for Mixer {
    open spec fn slots(v: MixerView) -> Seq<Slot> {
        seq![
            slot_opt::<String>("description"@, v.description),
            slot::<MixerChannels>("channels"@, v.channels),
            slot::<Vec<MixerMapping>>("mapping"@, v.mapping),
            slot_opt::<Vec<Option<String>>>("labels"@, v.labels),
        ]
    }

    open spec fn decode_fields(m: Entries) -> Result<MixerView, Fault> {
        let description = optional::<String>(m, "description"@);
        let channels = required::<MixerChannels>(m, "channels"@);
        let mapping = required::<Vec<MixerMapping>>(m, "mapping"@);
        let labels = optional::<Vec<Option<String>>>(m, "labels"@);
        if let Some(e) = unknown_field(m, Self::names()) {
            Err(e)
        } else if description is Err {
            Err(description->Err_0)
        } else if channels is Err {
            Err(channels->Err_0)
        } else if mapping is Err {
            Err(mapping->Err_0)
        } else if labels is Err {
            Err(labels->Err_0)
        } else {
            Ok(
                MixerView {
                    description: description->Ok_0,
                    channels: channels->Ok_0,
                    mapping: mapping->Ok_0,
                    labels: labels->Ok_0,
                },
            )
        }
    }

    fn read_fields(f: &Fields) -> (r: Result<Mixer, SchemaError>) {
        let known = vec!["description", "channels", "mapping", "labels"];
        proof {
            assert(texts(known@) =~= Self::names());
        }
        f.deny_unknown(&known)?;
        let description = f.optional::<String>("description")?;
        let channels = f.required::<MixerChannels>("channels")?;
        let mapping = f.required::<Vec<MixerMapping>>("mapping")?;
        let labels = f.optional::<Vec<Option<String>>>("labels")?;
        Ok(Mixer { description, channels, mapping, labels })
    }

    fn write_fields(&self, w: Writer) -> (r: Writer) {
        let ghost before = w.slots();
        let w = w.put_opt::<String>("description", &self.description);
        let w = w.put::<MixerChannels>("channels", &self.channels);
        let w = w.put::<Vec<MixerMapping>>("mapping", &self.mapping);
        let w = w.put_opt::<Vec<Option<String>>>("labels", &self.labels);
        proof {
            assert(w.slots() =~= before + Self::slots(self.deep_view()));
        }
        w
    }

    proof fn lemma_fields(v: MixerView) {
        Self::lemma_names();
        let s = Self::slots(v);
        lemma_slot_names(s, Self::names());
        lemma_present_known(s, Self::names());
        lemma_optional::<String>(s, 0, "description"@, v.description);
        lemma_required::<MixerChannels>(s, 1, "channels"@, v.channels);
        lemma_required::<Vec<MixerMapping>>(s, 2, "mapping"@, v.mapping);
        lemma_optional::<Vec<Option<String>>>(s, 3, "labels"@, v.labels);
    }

    proof fn lemma_fields_faithful(m: Entries) {
        if let Ok(v) = Self::decode_fields(m) {
            Self::lemma_names();
            lemma_unknown_field(m, Self::names());
            let s = lemma_matched_none(m);
            let s = lemma_matched_optional::<String>(m, s, "description"@, v.description);
            let s = lemma_matched_required::<MixerChannels>(m, s, "channels"@, v.channels);
            let s = lemma_matched_required::<Vec<MixerMapping>>(m, s, "mapping"@, v.mapping);
            let s = lemma_matched_optional::<Vec<Option<String>>>(m, s, "labels"@, v.labels);
            assert(s =~= Self::slots(v));
            lemma_slot_names(s, Self::names());
            lemma_alike_slots(m, s, Self::names());
        }
    }
}

} // verus!
