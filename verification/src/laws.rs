//! What holds of reading and writing a configuration.

use vstd::prelude::*;
use crate::codec::parsed;
use crate::composite::Record;
use crate::error::{ErrorKind, Fault};
use crate::likeness::{
    alike, lemma_alike_record, lemma_alike_slots, lemma_matched_none, lemma_matched_optional,
    lemma_matched_required,
};
use crate::named::{lemma_matched_named, lemma_optional_named, lemma_optional_named_distinct};
use crate::node::NodeView;
use crate::record::{
    distinct_keys, entries, has_key, is_record, is_stray, lemma_has_field, lemma_optional,
    lemma_present, lemma_present_known, lemma_record_node, lemma_required, lemma_slot_names,
    lemma_unknown_field, optional, present, record_node, slot_opt, tag_key, unknown_field, Entries,
    Slot,
};
use crate::schema::Schema;
use crate::types::configuration::{Configuration, ConfigurationView};
use crate::types::devices::{
    CaptureDevice, CaptureDeviceKind, Devices, PlaybackDevice, PlaybackDeviceKind,
};
use crate::types::filters::{Filter, PeakingWidth, PeakingWidthView};
use crate::types::mixer::Mixer;
use crate::types::pipeline::PipelineStep;
use crate::types::processor::Processor;
use crate::yaml::{yaml_document, yaml_text};

verus! {

/// Reading the document that was written for a valid configuration gives the
/// configuration back.
pub proof fn lemma_round_trip(v: ConfigurationView)
    requires
        v.valid(),
    ensures
        Configuration::decode(Configuration::encode(v)) == Ok::<ConfigurationView, Fault>(v),
{
    Configuration::lemma_names();
    let s = Configuration::slots(v);
    lemma_slot_names(s, Configuration::names());
    lemma_present(s);
    lemma_present_known(s, Configuration::names());
    lemma_record_node(present(s));
    lemma_optional::<String>(s, 0, "title"@, v.title);
    lemma_optional::<String>(s, 1, "description"@, v.description);
    lemma_required::<Devices>(s, 2, "devices"@, v.devices);
    lemma_optional_named::<Mixer>(s, 3, "mixers"@, v.mixers);
    lemma_optional_named::<Filter>(s, 4, "filters"@, v.filters);
    lemma_optional_named::<Processor>(s, 5, "processors"@, v.processors);
    lemma_optional::<Vec<PipelineStep>>(s, 6, "pipeline"@, v.pipeline);
}

/// The document that is written for a configuration has the shape of any
/// document that the configuration was read from: the same keys at every
/// depth, under the root, in every device, filter, mixer, processor and step.
///
/// So no key of a document is passed over in reading: a document that is
/// read holds, at every depth, only keys that its level declares. And no key
/// is added in writing: a field that a document leaves out is left out of
/// what is written for it.
pub proof fn lemma_faithful(n: NodeView)
    ensures
        Configuration::decode(n) matches Ok(v) ==> alike(n, Configuration::encode(v)),
{
    if is_record(n) {
        let m = entries(n);
        if let Ok(v) = Configuration::decode_fields(m) {
            Configuration::lemma_names();
            lemma_unknown_field(m, Configuration::names());
            let s = lemma_matched_none(m);
            let s = lemma_matched_optional::<String>(m, s, "title"@, v.title);
            let s = lemma_matched_optional::<String>(m, s, "description"@, v.description);
            let s = lemma_matched_required::<Devices>(m, s, "devices"@, v.devices);
            let s = lemma_matched_named::<Mixer>(m, s, "mixers"@, v.mixers);
            let s = lemma_matched_named::<Filter>(m, s, "filters"@, v.filters);
            let s = lemma_matched_named::<Processor>(m, s, "processors"@, v.processors);
            let s = lemma_matched_optional::<Vec<PipelineStep>>(m, s, "pipeline"@, v.pipeline);
            assert(s =~= Configuration::slots(v));
            lemma_slot_names(s, Configuration::names());
            lemma_alike_slots(m, s, Configuration::names());
            lemma_present(s);
            lemma_alike_record(n, present(s));
        }
    }
}

/// A key that is left out stays left out: where a document that is read has
/// no entry under the name of a field that may be left out, the field is
/// absent from what is read, nothing is written for it, and so it is absent
/// again from what is read from what was written.
pub proof fn lemma_absent_stays_absent<T: Schema>(m: Entries, name: Seq<char>)
    requires
        !has_key(m, name),
    ensures
        optional::<T>(m, name) == Ok::<Option<T::V>, Fault>(None),
        slot_opt::<T>(name, None).1 is None,
        present(seq![slot_opt::<T>(name, None)]) == Seq::<(Seq<char>, NodeView)>::empty(),
{
    reveal(optional);
    lemma_has_field(m, name);
    let s = seq![slot_opt::<T>(name, None)];
    assert(s.drop_last() =~= Seq::<Slot>::empty());
    reveal_with_fuel(present, 2);
}

/// A level refuses entries that hold a key that it does not declare, with
/// the failure [`ErrorKind::UnknownField`].
pub proof fn lemma_undeclared_key_refused(m: Entries, names: Seq<Seq<char>>, i: int)
    requires
        0 <= i < m.len(),
        !names.contains(m[i].0),
    ensures
        unknown_field(m, names) matches Some(e) && e.kind == ErrorKind::UnknownField,
{
    lemma_unknown_field(m, names);
    assert(is_stray(m, names, i));
}

/// Reading the text that was written for a valid configuration gives the
/// configuration back, where the YAML reader finds in the text the document
/// that the YAML writer was given. That it does is for `serde_yaml` to keep
/// and is not proved here; it is a premise.
pub proof fn lemma_text_round_trip(v: ConfigurationView, text: Seq<char>)
    requires
        v.valid(),
        yaml_text(Configuration::encode(v)) == Some(text),
        yaml_document(text) == Some(Configuration::encode(v)),
    ensures
        parsed(yaml_document(text), Ok(v)),
{
    lemma_round_trip(v);
}

/// A document whose root holds a key that the root does not declare is not
/// read, whatever else it holds: the failure is [`ErrorKind::UnknownField`].
pub proof fn lemma_undeclared_root_key_refused(n: NodeView, i: int)
    requires
        is_record(n),
        0 <= i < entries(n).len(),
        !Configuration::names().contains(entries(n)[i].0),
    ensures
        Configuration::decode(n) matches Err(e) && e.kind == ErrorKind::UnknownField,
{
    lemma_undeclared_key_refused(entries(n), Configuration::names(), i);
}

/// A capture device is the same whether its discriminant is spelled `Alsa`,
/// `ALSA` or `alsa`: mappings that differ in nothing else stand for the same
/// value. [`CaptureDevice::lemma_spelling`] says so of any two spellings
/// that select the same variant, and [`CaptureDeviceKind::lemma_spellings`]
/// says which do.
pub proof fn lemma_capture_alias(m: Entries, i: int)
    requires
        distinct_keys(m),
        0 <= i < m.len(),
        m[i].0 == tag_key(),
    ensures
        CaptureDevice::decode(record_node(m.update(i, (tag_key(), NodeView::String("ALSA"@)))))
            == CaptureDevice::decode(record_node(m.update(i, (tag_key(), NodeView::String("Alsa"@))))),
        CaptureDevice::decode(record_node(m.update(i, (tag_key(), NodeView::String("alsa"@)))))
            == CaptureDevice::decode(record_node(m.update(i, (tag_key(), NodeView::String("Alsa"@))))),
{
    CaptureDeviceKind::lemma_spellings();
    CaptureDevice::lemma_spelling(m, i, "ALSA"@, "Alsa"@);
    CaptureDevice::lemma_spelling(m, i, "alsa"@, "Alsa"@);
}

/// A playback device is the same whether its discriminant is spelled `Alsa`,
/// `ALSA` or `alsa`; see [`lemma_capture_alias`].
pub proof fn lemma_playback_alias(m: Entries, i: int)
    requires
        distinct_keys(m),
        0 <= i < m.len(),
        m[i].0 == tag_key(),
    ensures
        PlaybackDevice::decode(record_node(m.update(i, (tag_key(), NodeView::String("ALSA"@)))))
            == PlaybackDevice::decode(record_node(m.update(i, (tag_key(), NodeView::String("Alsa"@))))),
        PlaybackDevice::decode(record_node(m.update(i, (tag_key(), NodeView::String("alsa"@)))))
            == PlaybackDevice::decode(record_node(m.update(i, (tag_key(), NodeView::String("Alsa"@))))),
{
    PlaybackDeviceKind::lemma_spellings();
    PlaybackDevice::lemma_spelling(m, i, "ALSA"@, "Alsa"@);
    PlaybackDevice::lemma_spelling(m, i, "alsa"@, "Alsa"@);
}

/// A peak that is given both by its quality and by its bandwidth fits neither
/// shape: whatever else the entries hold, they are not read.
pub proof fn lemma_peak_by_both(m: Entries)
    requires
        has_key(m, "q"@),
        has_key(m, "bandwidth"@),
    ensures
        <PeakingWidth as Record>::decode_fields(m) == Err::<PeakingWidthView, Fault>(
            Fault::no_variant(PeakingWidth::shapes()),
        ),
{
    reveal_strlit("freq");
    reveal_strlit("q");
    reveal_strlit("gain");
    reveal_strlit("bandwidth");
    assert("freq"@.len() == 4 && "freq"@[0] == 'f');
    assert("q"@.len() == 1);
    assert("gain"@.len() == 4 && "gain"@[0] == 'g');
    assert("bandwidth"@.len() == 9);
    let i = choose|i: int| 0 <= i < m.len() && (#[trigger] m[i]).0 == "bandwidth"@;
    let narrow = PeakingWidth::names_q();
    assert(narrow[0] == "freq"@ && narrow[1] == "q"@ && narrow[2] == "gain"@);
    assert(is_stray(m, narrow, i));
    let j = choose|j: int| 0 <= j < m.len() && (#[trigger] m[j]).0 == "q"@;
    let wide = PeakingWidth::names_bandwidth();
    assert(wide[0] == "freq"@ && wide[1] == "bandwidth"@ && wide[2] == "gain"@);
    assert(is_stray(m, wide, j));
}

/// A configuration that is read is valid.
pub proof fn lemma_read_is_valid(n: NodeView)
    ensures
        Configuration::decode(n) matches Ok(v) ==> v.valid(),
{
    if is_record(n) {
        let m = entries(n);
        lemma_optional_named_distinct::<Mixer>(m, "mixers"@);
        lemma_optional_named_distinct::<Filter>(m, "filters"@);
        lemma_optional_named_distinct::<Processor>(m, "processors"@);
    }
}

/// Writing the configuration that a document stands for gives a document
/// that stands for the same configuration, whatever the two documents differ
/// in.
pub proof fn lemma_normal_form(n: NodeView)
    ensures
        Configuration::decode(n) matches Ok(v) ==> Configuration::decode(Configuration::encode(v))
            == Configuration::decode(n),
{
    lemma_read_is_valid(n);
    if let Ok(v) = Configuration::decode(n) {
        lemma_round_trip(v);
    }
}

} // verus!
