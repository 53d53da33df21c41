//! The capture and playback devices and the parameters of the stream between them.

use vstd::prelude::*;
use crate::composite::Record;
use crate::error::{Fault, SchemaError};
use crate::fields::{texts, Fields, Writer};
use crate::likeness::{
    alike_entries, lemma_alike_slots, lemma_matched_none, lemma_matched_optional,
    lemma_matched_required, lemma_tagged_faithful, lemma_untagged_distinct,
};
use crate::node::{Node, NodeView, Numeral, NumeralView};
use crate::record::{
    decode_tagged, distinct_keys, distinct_names, entries, is_record, lemma_optional,
    lemma_present_known, lemma_required, lemma_slot_names, lemma_spelling, lemma_tagged_round_trip,
    lemma_unknown_field, names_slot, optional, present, record_node, required, slot, slot_opt,
    tag_key, tag_of, tagged_node, unknown_field, untagged, Entries, Slot,
};
use crate::schema::Schema;
use crate::spelling::Spelled;
use crate::text::same_text;
use super::common::{SampleFormat, Signal, SignalView};
use super::resampler::{Resampler, ResamplerView};

verus! {

/// Capture from a file of raw samples.
#[derive(Clone, Debug, PartialEq, Eq)]
pub struct CaptureDeviceRawFile {
    pub channels: usize,
    pub filename: String,
    pub format: SampleFormat,
    pub extra_samples: Option<usize>,
    pub skip_bytes: Option<usize>,
    pub read_bytes: Option<usize>,
    /// A label for each channel, in order; a null for a channel without one.
    pub labels: Option<Vec<Option<String>>>,
}

/// The mathematical value of a [`CaptureDeviceRawFile`].
pub struct CaptureDeviceRawFileView {
    pub channels: usize,
    pub filename: Seq<char>,
    pub format: SampleFormat,
    pub extra_samples: Option<usize>,
    pub skip_bytes: Option<usize>,
    pub read_bytes: Option<usize>,
    pub labels: Option<Seq<Option<Seq<char>>>>,
}

impl DeepView for CaptureDeviceRawFile {
    type V = CaptureDeviceRawFileView;

    open spec fn deep_view(&self) -> CaptureDeviceRawFileView {
        CaptureDeviceRawFileView {
            channels: self.channels.deep_view(),
            filename: self.filename.deep_view(),
            format: self.format.deep_view(),
            extra_samples: self.extra_samples.deep_view(),
            skip_bytes: self.skip_bytes.deep_view(),
            read_bytes: self.read_bytes.deep_view(),
            labels: self.labels.deep_view(),
        }
    }
}

impl CaptureDeviceRawFile {
    /// The keys that the record declares.
    pub open spec fn names() -> Seq<Seq<char>> {
        seq![
            "channels"@, "filename"@, "format"@, "extra_samples"@, "skip_bytes"@, "read_bytes"@,
            "labels"@,
        ]
    }

    /// The keys of the record are distinct, and none is the key of a discriminant.
    pub proof fn lemma_names()
        ensures
            Self::names().no_duplicates(),
            !Self::names().contains(tag_key()),
    {
        reveal_strlit("type");
        reveal_strlit("channels");
        reveal_strlit("filename");
        reveal_strlit("format");
        reveal_strlit("extra_samples");
        reveal_strlit("skip_bytes");
        reveal_strlit("read_bytes");
        reveal_strlit("labels");
        assert("type"@.len() == 4);
        assert("channels"@.len() == 8 && "channels"@[0] == 'c');
        assert("filename"@.len() == 8 && "filename"@[0] == 'f');
        assert("format"@.len() == 6 && "format"@[0] == 'f');
        assert("extra_samples"@.len() == 13);
        assert("skip_bytes"@.len() == 10 && "skip_bytes"@[0] == 's');
        assert("read_bytes"@.len() == 10 && "read_bytes"@[0] == 'r');
        assert("labels"@.len() == 6 && "labels"@[0] == 'l');
    }
}

impl Record for CaptureDeviceRawFile {
    open spec fn slots(v: CaptureDeviceRawFileView) -> Seq<Slot> {
        seq![
            slot::<usize>("channels"@, v.channels),
            slot::<String>("filename"@, v.filename),
            slot::<SampleFormat>("format"@, v.format),
            slot_opt::<usize>("extra_samples"@, v.extra_samples),
            slot_opt::<usize>("skip_bytes"@, v.skip_bytes),
            slot_opt::<usize>("read_bytes"@, v.read_bytes),
            slot_opt::<Vec<Option<String>>>("labels"@, v.labels),
        ]
    }

    open spec fn decode_fields(m: Entries) -> Result<CaptureDeviceRawFileView, Fault> {
        let channels = required::<usize>(m, "channels"@);
        let filename = required::<String>(m, "filename"@);
        let format = required::<SampleFormat>(m, "format"@);
        let extra_samples = optional::<usize>(m, "extra_samples"@);
        let skip_bytes = optional::<usize>(m, "skip_bytes"@);
        let read_bytes = optional::<usize>(m, "read_bytes"@);
        let labels = optional::<Vec<Option<String>>>(m, "labels"@);
        if let Some(e) = unknown_field(m, Self::names()) {
            Err(e)
        } else if channels is Err {
            Err(channels->Err_0)
        } else if filename is Err {
            Err(filename->Err_0)
        } else if format is Err {
            Err(format->Err_0)
        } else if extra_samples is Err {
            Err(extra_samples->Err_0)
        } else if skip_bytes is Err {
            Err(skip_bytes->Err_0)
        } else if read_bytes is Err {
            Err(read_bytes->Err_0)
        } else if labels is Err {
            Err(labels->Err_0)
        } else {
            Ok(
                CaptureDeviceRawFileView {
                    channels: channels->Ok_0,
                    filename: filename->Ok_0,
                    format: format->Ok_0,
                    extra_samples: extra_samples->Ok_0,
                    skip_bytes: skip_bytes->Ok_0,
                    read_bytes: read_bytes->Ok_0,
                    labels: labels->Ok_0,
                },
            )
        }
    }

    fn read_fields(f: &Fields) -> (r: Result<CaptureDeviceRawFile, SchemaError>) {
        let known = vec![
            "channels", "filename", "format", "extra_samples", "skip_bytes", "read_bytes", "labels",
        ];
        proof {
            assert(texts(known@) =~= Self::names());
        }
        f.deny_unknown(&known)?;
        let channels = f.required::<usize>("channels")?;
        let filename = f.required::<String>("filename")?;
        let format = f.required::<SampleFormat>("format")?;
        let extra_samples = f.optional::<usize>("extra_samples")?;
        let skip_bytes = f.optional::<usize>("skip_bytes")?;
        let read_bytes = f.optional::<usize>("read_bytes")?;
        let labels = f.optional::<Vec<Option<String>>>("labels")?;
        Ok(CaptureDeviceRawFile { channels, filename, format, extra_samples, skip_bytes, read_bytes, labels })
    }

    fn write_fields(&self, w: Writer) -> (r: Writer) {
        let ghost before = w.slots();
        let w = w.put::<usize>("channels", &self.channels);
        let w = w.put::<String>("filename", &self.filename);
        let w = w.put::<SampleFormat>("format", &self.format);
        let w = w.put_opt::<usize>("extra_samples", &self.extra_samples);
        let w = w.put_opt::<usize>("skip_bytes", &self.skip_bytes);
        let w = w.put_opt::<usize>("read_bytes", &self.read_bytes);
        let w = w.put_opt::<Vec<Option<String>>>("labels", &self.labels);
        proof {
            assert(w.slots() =~= before + Self::slots(self.deep_view()));
        }
        w
    }

    proof fn lemma_fields(v: CaptureDeviceRawFileView) {
        Self::lemma_names();
        let s = Self::slots(v);
        lemma_slot_names(s, Self::names());
        lemma_present_known(s, Self::names());
        lemma_required::<usize>(s, 0, "channels"@, v.channels);
        lemma_required::<String>(s, 1, "filename"@, v.filename);
        lemma_required::<SampleFormat>(s, 2, "format"@, v.format);
        lemma_optional::<usize>(s, 3, "extra_samples"@, v.extra_samples);
        lemma_optional::<usize>(s, 4, "skip_bytes"@, v.skip_bytes);
        lemma_optional::<usize>(s, 5, "read_bytes"@, v.read_bytes);
        lemma_optional::<Vec<Option<String>>>(s, 6, "labels"@, v.labels);
    }

    proof fn lemma_fields_faithful(m: Entries) {
        if let Ok(v) = Self::decode_fields(m) {
            Self::lemma_names();
            lemma_unknown_field(m, Self::names());
            let s = lemma_matched_none(m);
            let s = lemma_matched_required::<usize>(m, s, "channels"@, v.channels);
            let s = lemma_matched_required::<String>(m, s, "filename"@, v.filename);
            let s = lemma_matched_required::<SampleFormat>(m, s, "format"@, v.format);
            let s = lemma_matched_optional::<usize>(m, s, "extra_samples"@, v.extra_samples);
            let s = lemma_matched_optional::<usize>(m, s, "skip_bytes"@, v.skip_bytes);
            let s = lemma_matched_optional::<usize>(m, s, "read_bytes"@, v.read_bytes);
            let s = lemma_matched_optional::<Vec<Option<String>>>(m, s, "labels"@, v.labels);
            assert(s =~= Self::slots(v));
            lemma_slot_names(s, Self::names());
            lemma_alike_slots(m, s, Self::names());
        }
    }
}

/// Capture from a wav file.
#[derive(Clone, Debug, PartialEq, Eq)]
pub struct CaptureDeviceWavFile {
    pub filename: String,
    pub extra_samples: Option<usize>,
    /// A label for each channel, in order; a null for a channel without one.
    pub labels: Option<Vec<Option<String>>>,
}

/// The mathematical value of a [`CaptureDeviceWavFile`].
pub struct CaptureDeviceWavFileView {
    pub filename: Seq<char>,
    pub extra_samples: Option<usize>,
    pub labels: Option<Seq<Option<Seq<char>>>>,
}

impl DeepView for CaptureDeviceWavFile {
    type V = CaptureDeviceWavFileView;

    open spec fn deep_view(&self) -> CaptureDeviceWavFileView {
        CaptureDeviceWavFileView {
            filename: self.filename.deep_view(),
            extra_samples: self.extra_samples.deep_view(),
            labels: self.labels.deep_view(),
        }
    }
}

impl CaptureDeviceWavFile {
    /// The keys that the record declares.
    pub open spec fn names() -> Seq<Seq<char>> {
        seq!["filename"@, "extra_samples"@, "labels"@]
    }

    /// The keys of the record are distinct, and none is the key of a discriminant.
    pub proof fn lemma_names()
        ensures
            Self::names().no_duplicates(),
            !Self::names().contains(tag_key()),
    {
        reveal_strlit("type");
        reveal_strlit("filename");
        reveal_strlit("extra_samples");
        reveal_strlit("labels");
        assert("type"@.len() == 4);
        assert("filename"@.len() == 8);
        assert("extra_samples"@.len() == 13);
        assert("labels"@.len() == 6);
    }
}

impl Record for CaptureDeviceWavFile {
    open spec fn slots(v: CaptureDeviceWavFileView) -> Seq<Slot> {
        seq![
            slot::<String>("filename"@, v.filename),
            slot_opt::<usize>("extra_samples"@, v.extra_samples),
            slot_opt::<Vec<Option<String>>>("labels"@, v.labels),
        ]
    }

    open spec fn decode_fields(m: Entries) -> Result<CaptureDeviceWavFileView, Fault> {
        let filename = required::<String>(m, "filename"@);
        let extra_samples = optional::<usize>(m, "extra_samples"@);
        let labels = optional::<Vec<Option<String>>>(m, "labels"@);
        if let Some(e) = unknown_field(m, Self::names()) {
            Err(e)
        } else if filename is Err {
            Err(filename->Err_0)
        } else if extra_samples is Err {
            Err(extra_samples->Err_0)
        } else if labels is Err {
            Err(labels->Err_0)
        } else {
            Ok(
                CaptureDeviceWavFileView {
                    filename: filename->Ok_0,
                    extra_samples: extra_samples->Ok_0,
                    labels: labels->Ok_0,
                },
            )
        }
    }

    fn read_fields(f: &Fields) -> (r: Result<CaptureDeviceWavFile, SchemaError>) {
        let known = vec!["filename", "extra_samples", "labels"];
        proof {
            assert(texts(known@) =~= Self::names());
        }
        f.deny_unknown(&known)?;
        let filename = f.required::<String>("filename")?;
        let extra_samples = f.optional::<usize>("extra_samples")?;
        let labels = f.optional::<Vec<Option<String>>>("labels")?;
        Ok(CaptureDeviceWavFile { filename, extra_samples, labels })
    }

    fn write_fields(&self, w: Writer) -> (r: Writer) {
        let ghost before = w.slots();
        let w = w.put::<String>("filename", &self.filename);
        let w = w.put_opt::<usize>("extra_samples", &self.extra_samples);
        let w = w.put_opt::<Vec<Option<String>>>("labels", &self.labels);
        proof {
            assert(w.slots() =~= before + Self::slots(self.deep_view()));
        }
        w
    }

    proof fn lemma_fields(v: CaptureDeviceWavFileView) {
        Self::lemma_names();
        let s = Self::slots(v);
        lemma_slot_names(s, Self::names());
        lemma_present_known(s, Self::names());
        lemma_required::<String>(s, 0, "filename"@, v.filename);
        lemma_optional::<usize>(s, 1, "extra_samples"@, v.extra_samples);
        lemma_optional::<Vec<Option<String>>>(s, 2, "labels"@, v.labels);
    }

    proof fn lemma_fields_faithful(m: Entries) {
        if let Ok(v) = Self::decode_fields(m) {
            Self::lemma_names();
            lemma_unknown_field(m, Self::names());
            let s = lemma_matched_none(m);
            let s = lemma_matched_required::<String>(m, s, "filename"@, v.filename);
            let s = lemma_matched_optional::<usize>(m, s, "extra_samples"@, v.extra_samples);
            let s = lemma_matched_optional::<Vec<Option<String>>>(m, s, "labels"@, v.labels);
            assert(s =~= Self::slots(v));
            lemma_slot_names(s, Self::names());
            lemma_alike_slots(m, s, Self::names());
        }
    }
}

/// Capture of raw samples from the standard input.
#[derive(Clone, Debug, PartialEq, Eq)]
pub struct CaptureDeviceStdin {
    pub channels: usize,
    pub format: SampleFormat,
    pub extra_samples: Option<usize>,
    pub skip_bytes: Option<usize>,
    pub read_bytes: Option<usize>,
    /// A label for each channel, in order; a null for a channel without one.
    pub labels: Option<Vec<Option<String>>>,
}

/// The mathematical value of a [`CaptureDeviceStdin`].
pub struct CaptureDeviceStdinView {
    pub channels: usize,
    pub format: SampleFormat,
    pub extra_samples: Option<usize>,
    pub skip_bytes: Option<usize>,
    pub read_bytes: Option<usize>,
    pub labels: Option<Seq<Option<Seq<char>>>>,
}

impl DeepView for CaptureDeviceStdin {
    type V = CaptureDeviceStdinView;

    open spec fn deep_view(&self) -> CaptureDeviceStdinView {
        CaptureDeviceStdinView {
            channels: self.channels.deep_view(),
            format: self.format.deep_view(),
            extra_samples: self.extra_samples.deep_view(),
            skip_bytes: self.skip_bytes.deep_view(),
            read_bytes: self.read_bytes.deep_view(),
            labels: self.labels.deep_view(),
        }
    }
}

impl CaptureDeviceStdin {
    /// The keys that the record declares.
    pub open spec fn names() -> Seq<Seq<char>> {
        seq!["channels"@, "format"@, "extra_samples"@, "skip_bytes"@, "read_bytes"@, "labels"@]
    }

    /// The keys of the record are distinct, and none is the key of a discriminant.
    pub proof fn lemma_names()
        ensures
            Self::names().no_duplicates(),
            !Self::names().contains(tag_key()),
    {
        reveal_strlit("type");
        reveal_strlit("channels");
        reveal_strlit("format");
        reveal_strlit("extra_samples");
        reveal_strlit("skip_bytes");
        reveal_strlit("read_bytes");
        reveal_strlit("labels");
        assert("type"@.len() == 4);
        assert("channels"@.len() == 8);
        assert("format"@.len() == 6 && "format"@[0] == 'f');
        assert("extra_samples"@.len() == 13);
        assert("skip_bytes"@.len() == 10 && "skip_bytes"@[0] == 's');
        assert("read_bytes"@.len() == 10 && "read_bytes"@[0] == 'r');
        assert("labels"@.len() == 6 && "labels"@[0] == 'l');
    }
}

impl Record for CaptureDeviceStdin {
    open spec fn slots(v: CaptureDeviceStdinView) -> Seq<Slot> {
        seq![
            slot::<usize>("channels"@, v.channels),
            slot::<SampleFormat>("format"@, v.format),
            slot_opt::<usize>("extra_samples"@, v.extra_samples),
            slot_opt::<usize>("skip_bytes"@, v.skip_bytes),
            slot_opt::<usize>("read_bytes"@, v.read_bytes),
            slot_opt::<Vec<Option<String>>>("labels"@, v.labels),
        ]
    }

    open spec fn decode_fields(m: Entries) -> Result<CaptureDeviceStdinView, Fault> {
        let channels = required::<usize>(m, "channels"@);
        let format = required::<SampleFormat>(m, "format"@);
        let extra_samples = optional::<usize>(m, "extra_samples"@);
        let skip_bytes = optional::<usize>(m, "skip_bytes"@);
        let read_bytes = optional::<usize>(m, "read_bytes"@);
        let labels = optional::<Vec<Option<String>>>(m, "labels"@);
        if let Some(e) = unknown_field(m, Self::names()) {
            Err(e)
        } else if channels is Err {
            Err(channels->Err_0)
        } else if format is Err {
            Err(format->Err_0)
        } else if extra_samples is Err {
            Err(extra_samples->Err_0)
        } else if skip_bytes is Err {
            Err(skip_bytes->Err_0)
        } else if read_bytes is Err {
            Err(read_bytes->Err_0)
        } else if labels is Err {
            Err(labels->Err_0)
        } else {
            Ok(
                CaptureDeviceStdinView {
                    channels: channels->Ok_0,
                    format: format->Ok_0,
                    extra_samples: extra_samples->Ok_0,
                    skip_bytes: skip_bytes->Ok_0,
                    read_bytes: read_bytes->Ok_0,
                    labels: labels->Ok_0,
                },
            )
        }
    }

    fn read_fields(f: &Fields) -> (r: Result<CaptureDeviceStdin, SchemaError>) {
        let known = vec!["channels", "format", "extra_samples", "skip_bytes", "read_bytes", "labels"];
        proof {
            assert(texts(known@) =~= Self::names());
        }
        f.deny_unknown(&known)?;
        let channels = f.required::<usize>("channels")?;
        let format = f.required::<SampleFormat>("format")?;
        let extra_samples = f.optional::<usize>("extra_samples")?;
        let skip_bytes = f.optional::<usize>("skip_bytes")?;
        let read_bytes = f.optional::<usize>("read_bytes")?;
        let labels = f.optional::<Vec<Option<String>>>("labels")?;
        Ok(CaptureDeviceStdin { channels, format, extra_samples, skip_bytes, read_bytes, labels })
    }

    fn write_fields(&self, w: Writer) -> (r: Writer) {
        let ghost before = w.slots();
        let w = w.put::<usize>("channels", &self.channels);
        let w = w.put::<SampleFormat>("format", &self.format);
        let w = w.put_opt::<usize>("extra_samples", &self.extra_samples);
        let w = w.put_opt::<usize>("skip_bytes", &self.skip_bytes);
        let w = w.put_opt::<usize>("read_bytes", &self.read_bytes);
        let w = w.put_opt::<Vec<Option<String>>>("labels", &self.labels);
        proof {
            assert(w.slots() =~= before + Self::slots(self.deep_view()));
        }
        w
    }

    proof fn lemma_fields(v: CaptureDeviceStdinView) {
        Self::lemma_names();
        let s = Self::slots(v);
        lemma_slot_names(s, Self::names());
        lemma_present_known(s, Self::names());
        lemma_required::<usize>(s, 0, "channels"@, v.channels);
        lemma_required::<SampleFormat>(s, 1, "format"@, v.format);
        lemma_optional::<usize>(s, 2, "extra_samples"@, v.extra_samples);
        lemma_optional::<usize>(s, 3, "skip_bytes"@, v.skip_bytes);
        lemma_optional::<usize>(s, 4, "read_bytes"@, v.read_bytes);
        lemma_optional::<Vec<Option<String>>>(s, 5, "labels"@, v.labels);
    }

    proof fn lemma_fields_faithful(m: Entries) {
        if let Ok(v) = Self::decode_fields(m) {
            Self::lemma_names();
            lemma_unknown_field(m, Self::names());
            let s = lemma_matched_none(m);
            let s = lemma_matched_required::<usize>(m, s, "channels"@, v.channels);
            let s = lemma_matched_required::<SampleFormat>(m, s, "format"@, v.format);
            let s = lemma_matched_optional::<usize>(m, s, "extra_samples"@, v.extra_samples);
            let s = lemma_matched_optional::<usize>(m, s, "skip_bytes"@, v.skip_bytes);
            let s = lemma_matched_optional::<usize>(m, s, "read_bytes"@, v.read_bytes);
            let s = lemma_matched_optional::<Vec<Option<String>>>(m, s, "labels"@, v.labels);
            assert(s =~= Self::slots(v));
            lemma_slot_names(s, Self::names());
            lemma_alike_slots(m, s, Self::names());
        }
    }
}

/// Capture from a Bluetooth source.
#[derive(Clone, Debug, PartialEq, Eq)]
pub struct CaptureDeviceBluez {
    pub service: Option<String>,
    pub dbus_path: String,
    pub format: SampleFormat,
    pub channels: usize,
    /// A label for each channel, in order; a null for a channel without one.
    pub labels: Option<Vec<Option<String>>>,
}

/// The mathematical value of a [`CaptureDeviceBluez`].
pub struct CaptureDeviceBluezView {
    pub service: Option<Seq<char>>,
    pub dbus_path: Seq<char>,
    pub format: SampleFormat,
    pub channels: usize,
    pub labels: Option<Seq<Option<Seq<char>>>>,
}

impl DeepView for CaptureDeviceBluez {
    type V = CaptureDeviceBluezView;

    open spec fn deep_view(&self) -> CaptureDeviceBluezView {
        CaptureDeviceBluezView {
            service: self.service.deep_view(),
            dbus_path: self.dbus_path.deep_view(),
            format: self.format.deep_view(),
            channels: self.channels.deep_view(),
            labels: self.labels.deep_view(),
        }
    }
}

impl CaptureDeviceBluez {
    /// The keys that the record declares.
    pub open spec fn names() -> Seq<Seq<char>> {
        seq!["service"@, "dbus_path"@, "format"@, "channels"@, "labels"@]
    }

    /// The keys of the record are distinct, and none is the key of a discriminant.
    pub proof fn lemma_names()
        ensures
            Self::names().no_duplicates(),
            !Self::names().contains(tag_key()),
    {
        reveal_strlit("type");
        reveal_strlit("service");
        reveal_strlit("dbus_path");
        reveal_strlit("format");
        reveal_strlit("channels");
        reveal_strlit("labels");
        assert("type"@.len() == 4);
        assert("service"@.len() == 7);
        assert("dbus_path"@.len() == 9);
        assert("format"@.len() == 6 && "format"@[0] == 'f');
        assert("channels"@.len() == 8);
        assert("labels"@.len() == 6 && "labels"@[0] == 'l');
    }
}

impl Record for CaptureDeviceBluez {
    open spec fn slots(v: CaptureDeviceBluezView) -> Seq<Slot> {
        seq![
            slot_opt::<String>("service"@, v.service),
            slot::<String>("dbus_path"@, v.dbus_path),
            slot::<SampleFormat>("format"@, v.format),
            slot::<usize>("channels"@, v.channels),
            slot_opt::<Vec<Option<String>>>("labels"@, v.labels),
        ]
    }

    open spec fn decode_fields(m: Entries) -> Result<CaptureDeviceBluezView, Fault> {
        let service = optional::<String>(m, "service"@);
        let dbus_path = required::<String>(m, "dbus_path"@);
        let format = required::<SampleFormat>(m, "format"@);
        let channels = required::<usize>(m, "channels"@);
        let labels = optional::<Vec<Option<String>>>(m, "labels"@);
        if let Some(e) = unknown_field(m, Self::names()) {
            Err(e)
        } else if service is Err {
            Err(service->Err_0)
        } else if dbus_path is Err {
            Err(dbus_path->Err_0)
        } else if format is Err {
            Err(format->Err_0)
        } else if channels is Err {
            Err(channels->Err_0)
        } else if labels is Err {
            Err(labels->Err_0)
        } else {
            Ok(
                CaptureDeviceBluezView {
                    service: service->Ok_0,
                    dbus_path: dbus_path->Ok_0,
                    format: format->Ok_0,
                    channels: channels->Ok_0,
                    labels: labels->Ok_0,
                },
            )
        }
    }

    fn read_fields(f: &Fields) -> (r: Result<CaptureDeviceBluez, SchemaError>) {
        let known = vec!["service", "dbus_path", "format", "channels", "labels"];
        proof {
            assert(texts(known@) =~= Self::names());
        }
        f.deny_unknown(&known)?;
        let service = f.optional::<String>("service")?;
        let dbus_path = f.required::<String>("dbus_path")?;
        let format = f.required::<SampleFormat>("format")?;
        let channels = f.required::<usize>("channels")?;
        let labels = f.optional::<Vec<Option<String>>>("labels")?;
        Ok(CaptureDeviceBluez { service, dbus_path, format, channels, labels })
    }

    fn write_fields(&self, w: Writer) -> (r: Writer) {
        let ghost before = w.slots();
        let w = w.put_opt::<String>("service", &self.service);
        let w = w.put::<String>("dbus_path", &self.dbus_path);
        let w = w.put::<SampleFormat>("format", &self.format);
        let w = w.put::<usize>("channels", &self.channels);
        let w = w.put_opt::<Vec<Option<String>>>("labels", &self.labels);
        proof {
            assert(w.slots() =~= before + Self::slots(self.deep_view()));
        }
        w
    }

    proof fn lemma_fields(v: CaptureDeviceBluezView) {
        Self::lemma_names();
        let s = Self::slots(v);
        lemma_slot_names(s, Self::names());
        lemma_present_known(s, Self::names());
        lemma_optional::<String>(s, 0, "service"@, v.service);
        lemma_required::<String>(s, 1, "dbus_path"@, v.dbus_path);
        lemma_required::<SampleFormat>(s, 2, "format"@, v.format);
        lemma_required::<usize>(s, 3, "channels"@, v.channels);
        lemma_optional::<Vec<Option<String>>>(s, 4, "labels"@, v.labels);
    }

    proof fn lemma_fields_faithful(m: Entries) {
        if let Ok(v) = Self::decode_fields(m) {
            Self::lemma_names();
            lemma_unknown_field(m, Self::names());
            let s = lemma_matched_none(m);
            let s = lemma_matched_optional::<String>(m, s, "service"@, v.service);
            let s = lemma_matched_required::<String>(m, s, "dbus_path"@, v.dbus_path);
            let s = lemma_matched_required::<SampleFormat>(m, s, "format"@, v.format);
            let s = lemma_matched_required::<usize>(m, s, "channels"@, v.channels);
            let s = lemma_matched_optional::<Vec<Option<String>>>(m, s, "labels"@, v.labels);
            assert(s =~= Self::slots(v));
            lemma_slot_names(s, Self::names());
            lemma_alike_slots(m, s, Self::names());
        }
    }
}

/// Capture from a WASAPI device.
#[derive(Clone, Debug, PartialEq, Eq)]
pub struct CaptureDeviceWasapi {
    pub channels: usize,
    pub device: Option<String>,
    pub format: SampleFormat,
    pub exclusive: Option<bool>,
    pub loopback: Option<bool>,
    /// A label for each channel, in order; a null for a channel without one.
    pub labels: Option<Vec<Option<String>>>,
}

/// The mathematical value of a [`CaptureDeviceWasapi`].
pub struct CaptureDeviceWasapiView {
    pub channels: usize,
    pub device: Option<Seq<char>>,
    pub format: SampleFormat,
    pub exclusive: Option<bool>,
    pub loopback: Option<bool>,
    pub labels: Option<Seq<Option<Seq<char>>>>,
}

impl DeepView for CaptureDeviceWasapi {
    type V = CaptureDeviceWasapiView;

    open spec fn deep_view(&self) -> CaptureDeviceWasapiView {
        CaptureDeviceWasapiView {
            channels: self.channels.deep_view(),
            device: self.device.deep_view(),
            format: self.format.deep_view(),
            exclusive: self.exclusive.deep_view(),
            loopback: self.loopback.deep_view(),
            labels: self.labels.deep_view(),
        }
    }
}

impl CaptureDeviceWasapi {
    /// The keys that the record declares.
    pub open spec fn names() -> Seq<Seq<char>> {
        seq!["channels"@, "device"@, "format"@, "exclusive"@, "loopback"@, "labels"@]
    }

    /// The keys of the record are distinct, and none is the key of a discriminant.
    pub proof fn lemma_names()
        ensures
            Self::names().no_duplicates(),
            !Self::names().contains(tag_key()),
    {
        reveal_strlit("type");
        reveal_strlit("channels");
        reveal_strlit("device");
        reveal_strlit("format");
        reveal_strlit("exclusive");
        reveal_strlit("loopback");
        reveal_strlit("labels");
        assert("type"@.len() == 4);
        assert("channels"@.len() == 8 && "channels"@[0] == 'c');
        assert("device"@.len() == 6 && "device"@[0] == 'd');
        assert("format"@.len() == 6 && "format"@[0] == 'f');
        assert("exclusive"@.len() == 9);
        assert("loopback"@.len() == 8 && "loopback"@[0] == 'l');
        assert("labels"@.len() == 6 && "labels"@[0] == 'l');
    }
}

impl Record for CaptureDeviceWasapi {
    open spec fn slots(v: CaptureDeviceWasapiView) -> Seq<Slot> {
        seq![
            slot::<usize>("channels"@, v.channels),
            slot_opt::<String>("device"@, v.device),
            slot::<SampleFormat>("format"@, v.format),
            slot_opt::<bool>("exclusive"@, v.exclusive),
            slot_opt::<bool>("loopback"@, v.loopback),
            slot_opt::<Vec<Option<String>>>("labels"@, v.labels),
        ]
    }

    open spec fn decode_fields(m: Entries) -> Result<CaptureDeviceWasapiView, Fault> {
        let channels = required::<usize>(m, "channels"@);
        let device = optional::<String>(m, "device"@);
        let format = required::<SampleFormat>(m, "format"@);
        let exclusive = optional::<bool>(m, "exclusive"@);
        let loopback = optional::<bool>(m, "loopback"@);
        let labels = optional::<Vec<Option<String>>>(m, "labels"@);
        if let Some(e) = unknown_field(m, Self::names()) {
            Err(e)
        } else if channels is Err {
            Err(channels->Err_0)
        } else if device is Err {
            Err(device->Err_0)
        } else if format is Err {
            Err(format->Err_0)
        } else if exclusive is Err {
            Err(exclusive->Err_0)
        } else if loopback is Err {
            Err(loopback->Err_0)
        } else if labels is Err {
            Err(labels->Err_0)
        } else {
            Ok(
                CaptureDeviceWasapiView {
                    channels: channels->Ok_0,
                    device: device->Ok_0,
                    format: format->Ok_0,
                    exclusive: exclusive->Ok_0,
                    loopback: loopback->Ok_0,
                    labels: labels->Ok_0,
                },
            )
        }
    }

    fn read_fields(f: &Fields) -> (r: Result<CaptureDeviceWasapi, SchemaError>) {
        let known = vec!["channels", "device", "format", "exclusive", "loopback", "labels"];
        proof {
            assert(texts(known@) =~= Self::names());
        }
        f.deny_unknown(&known)?;
        let channels = f.required::<usize>("channels")?;
        let device = f.optional::<String>("device")?;
        let format = f.required::<SampleFormat>("format")?;
        let exclusive = f.optional::<bool>("exclusive")?;
        let loopback = f.optional::<bool>("loopback")?;
        let labels = f.optional::<Vec<Option<String>>>("labels")?;
        Ok(CaptureDeviceWasapi { channels, device, format, exclusive, loopback, labels })
    }

    fn write_fields(&self, w: Writer) -> (r: Writer) {
        let ghost before = w.slots();
        let w = w.put::<usize>("channels", &self.channels);
        let w = w.put_opt::<String>("device", &self.device);
        let w = w.put::<SampleFormat>("format", &self.format);
        let w = w.put_opt::<bool>("exclusive", &self.exclusive);
        let w = w.put_opt::<bool>("loopback", &self.loopback);
        let w = w.put_opt::<Vec<Option<String>>>("labels", &self.labels);
        proof {
            assert(w.slots() =~= before + Self::slots(self.deep_view()));
        }
        w
    }

    proof fn lemma_fields(v: CaptureDeviceWasapiView) {
        Self::lemma_names();
        let s = Self::slots(v);
        lemma_slot_names(s, Self::names());
        lemma_present_known(s, Self::names());
        lemma_required::<usize>(s, 0, "channels"@, v.channels);
        lemma_optional::<String>(s, 1, "device"@, v.device);
        lemma_required::<SampleFormat>(s, 2, "format"@, v.format);
        lemma_optional::<bool>(s, 3, "exclusive"@, v.exclusive);
        lemma_optional::<bool>(s, 4, "loopback"@, v.loopback);
        lemma_optional::<Vec<Option<String>>>(s, 5, "labels"@, v.labels);
    }

    proof fn lemma_fields_faithful(m: Entries) {
        if let Ok(v) = Self::decode_fields(m) {
            Self::lemma_names();
            lemma_unknown_field(m, Self::names());
            let s = lemma_matched_none(m);
            let s = lemma_matched_required::<usize>(m, s, "channels"@, v.channels);
            let s = lemma_matched_optional::<String>(m, s, "device"@, v.device);
            let s = lemma_matched_required::<SampleFormat>(m, s, "format"@, v.format);
            let s = lemma_matched_optional::<bool>(m, s, "exclusive"@, v.exclusive);
            let s = lemma_matched_optional::<bool>(m, s, "loopback"@, v.loopback);
            let s = lemma_matched_optional::<Vec<Option<String>>>(m, s, "labels"@, v.labels);
            assert(s =~= Self::slots(v));
            lemma_slot_names(s, Self::names());
            lemma_alike_slots(m, s, Self::names());
        }
    }
}

/// Capture from a CoreAudio device.
#[derive(Clone, Debug, PartialEq, Eq)]
pub struct CaptureDeviceCA {
    pub channels: usize,
    pub device: Option<String>,
    pub format: Option<SampleFormat>,
    /// A label for each channel, in order; a null for a channel without one.
    pub labels: Option<Vec<Option<String>>>,
}

/// The mathematical value of a [`CaptureDeviceCA`].
pub struct CaptureDeviceCAView {
    pub channels: usize,
    pub device: Option<Seq<char>>,
    pub format: Option<SampleFormat>,
    pub labels: Option<Seq<Option<Seq<char>>>>,
}

impl DeepView for CaptureDeviceCA {
    type V = CaptureDeviceCAView;

    open spec fn deep_view(&self) -> CaptureDeviceCAView {
        CaptureDeviceCAView {
            channels: self.channels.deep_view(),
            device: self.device.deep_view(),
            format: self.format.deep_view(),
            labels: self.labels.deep_view(),
        }
    }
}

impl CaptureDeviceCA {
    /// The keys that the record declares.
    pub open spec fn names() -> Seq<Seq<char>> {
        seq!["channels"@, "device"@, "format"@, "labels"@]
    }

    /// The keys of the record are distinct, and none is the key of a discriminant.
    pub proof fn lemma_names()
        ensures
            Self::names().no_duplicates(),
            !Self::names().contains(tag_key()),
    {
        reveal_strlit("type");
        reveal_strlit("channels");
        reveal_strlit("device");
        reveal_strlit("format");
        reveal_strlit("labels");
        assert("type"@.len() == 4);
        assert("channels"@.len() == 8);
        assert("device"@.len() == 6 && "device"@[0] == 'd');
        assert("format"@.len() == 6 && "format"@[0] == 'f');
        assert("labels"@.len() == 6 && "labels"@[0] == 'l');
    }
}

impl Record for CaptureDeviceCA {
    open spec fn slots(v: CaptureDeviceCAView) -> Seq<Slot> {
        seq![
            slot::<usize>("channels"@, v.channels),
            slot_opt::<String>("device"@, v.device),
            slot_opt::<SampleFormat>("format"@, v.format),
            slot_opt::<Vec<Option<String>>>("labels"@, v.labels),
        ]
    }

    open spec fn decode_fields(m: Entries) -> Result<CaptureDeviceCAView, Fault> {
        let channels = required::<usize>(m, "channels"@);
        let device = optional::<String>(m, "device"@);
        let format = optional::<SampleFormat>(m, "format"@);
        let labels = optional::<Vec<Option<String>>>(m, "labels"@);
        if let Some(e) = unknown_field(m, Self::names()) {
            Err(e)
        } else if channels is Err {
            Err(channels->Err_0)
        } else if device is Err {
            Err(device->Err_0)
        } else if format is Err {
            Err(format->Err_0)
        } else if labels is Err {
            Err(labels->Err_0)
        } else {
            Ok(
                CaptureDeviceCAView {
                    channels: channels->Ok_0,
                    device: device->Ok_0,
                    format: format->Ok_0,
                    labels: labels->Ok_0,
                },
            )
        }
    }

    fn read_fields(f: &Fields) -> (r: Result<CaptureDeviceCA, SchemaError>) {
        let known = vec!["channels", "device", "format", "labels"];
        proof {
            assert(texts(known@) =~= Self::names());
        }
        f.deny_unknown(&known)?;
        let channels = f.required::<usize>("channels")?;
        let device = f.optional::<String>("device")?;
        let format = f.optional::<SampleFormat>("format")?;
        let labels = f.optional::<Vec<Option<String>>>("labels")?;
        Ok(CaptureDeviceCA { channels, device, format, labels })
    }

    fn write_fields(&self, w: Writer) -> (r: Writer) {
        let ghost before = w.slots();
        let w = w.put::<usize>("channels", &self.channels);
        let w = w.put_opt::<String>("device", &self.device);
        let w = w.put_opt::<SampleFormat>("format", &self.format);
        let w = w.put_opt::<Vec<Option<String>>>("labels", &self.labels);
        proof {
            assert(w.slots() =~= before + Self::slots(self.deep_view()));
        }
        w
    }

    proof fn lemma_fields(v: CaptureDeviceCAView) {
        Self::lemma_names();
        let s = Self::slots(v);
        lemma_slot_names(s, Self::names());
        lemma_present_known(s, Self::names());
        lemma_required::<usize>(s, 0, "channels"@, v.channels);
        lemma_optional::<String>(s, 1, "device"@, v.device);
        lemma_optional::<SampleFormat>(s, 2, "format"@, v.format);
        lemma_optional::<Vec<Option<String>>>(s, 3, "labels"@, v.labels);
    }

    proof fn lemma_fields_faithful(m: Entries) {
        if let Ok(v) = Self::decode_fields(m) {
            Self::lemma_names();
            lemma_unknown_field(m, Self::names());
            let s = lemma_matched_none(m);
            let s = lemma_matched_required::<usize>(m, s, "channels"@, v.channels);
            let s = lemma_matched_optional::<String>(m, s, "device"@, v.device);
            let s = lemma_matched_optional::<SampleFormat>(m, s, "format"@, v.format);
            let s = lemma_matched_optional::<Vec<Option<String>>>(m, s, "labels"@, v.labels);
            assert(s =~= Self::slots(v));
            lemma_slot_names(s, Self::names());
            lemma_alike_slots(m, s, Self::names());
        }
    }
}

/// Where the samples come from.
#[derive(Clone, Debug, PartialEq, Eq)]
pub enum CaptureDevice {
    Alsa {
        channels: usize,
        device: String,
        format: Option<SampleFormat>,
        stop_on_inactive: Option<bool>,
        link_volume_control: Option<String>,
        link_mute_control: Option<String>,
        /// A label for each channel, in order; a null for a channel without
        /// one.
        labels: Option<Vec<Option<String>>>,
    },
    Bluez(CaptureDeviceBluez),
    Pulse {
        channels: usize,
        device: String,
        format: SampleFormat,
        /// A label for each channel, in order; a null for a channel without
        /// one.
        labels: Option<Vec<Option<String>>>,
    },
    RawFile(CaptureDeviceRawFile),
    WavFile(CaptureDeviceWavFile),
    Stdin(CaptureDeviceStdin),
    CoreAudio(CaptureDeviceCA),
    Wasapi(CaptureDeviceWasapi),
    Jack {
        channels: usize,
        device: String,
        /// A label for each channel, in order; a null for a channel without
        /// one.
        labels: Option<Vec<Option<String>>>,
    },
    SignalGenerator {
        channels: usize,
        signal: Signal,
        /// A label for each channel, in order; a null for a channel without
        /// one.
        labels: Option<Vec<Option<String>>>,
    },
}

/// The mathematical value of a [`CaptureDevice`].
pub enum CaptureDeviceView {
    Alsa {
        channels: usize,
        device: Seq<char>,
        format: Option<SampleFormat>,
        stop_on_inactive: Option<bool>,
        link_volume_control: Option<Seq<char>>,
        link_mute_control: Option<Seq<char>>,
        labels: Option<Seq<Option<Seq<char>>>>,
    },
    Bluez(CaptureDeviceBluezView),
    Pulse {
        channels: usize,
        device: Seq<char>,
        format: SampleFormat,
        labels: Option<Seq<Option<Seq<char>>>>,
    },
    RawFile(CaptureDeviceRawFileView),
    WavFile(CaptureDeviceWavFileView),
    Stdin(CaptureDeviceStdinView),
    CoreAudio(CaptureDeviceCAView),
    Wasapi(CaptureDeviceWasapiView),
    Jack {
        channels: usize,
        device: Seq<char>,
        labels: Option<Seq<Option<Seq<char>>>>,
    },
    SignalGenerator {
        channels: usize,
        signal: SignalView,
        labels: Option<Seq<Option<Seq<char>>>>,
    },
}

/// The discriminants of [`CaptureDevice`].
#[derive(Clone, Copy, Debug, PartialEq, Eq)]
pub enum CaptureDeviceKind {
    /// Also read as `ALSA` and `alsa`.
    Alsa,
    /// Also read as `BLUEZ` and `bluez`.
    Bluez,
    /// Also read as `PULSE` and `pulse`.
    Pulse,
    RawFile,
    WavFile,
    /// Also read as `STDIN` and `stdin`.
    Stdin,
    /// Also read as `COREAUDIO` and `coreaudio`.
    CoreAudio,
    /// Also read as `WASAPI` and `wasapi`.
    Wasapi,
    /// Also read as `JACK` and `jack`.
    Jack,
    SignalGenerator,
}

impl Spelled for CaptureDeviceKind {
    open spec fn name(self) -> Seq<char> {
        match self {
            CaptureDeviceKind::Alsa => "Alsa"@,
            CaptureDeviceKind::Bluez => "Bluez"@,
            CaptureDeviceKind::Pulse => "Pulse"@,
            CaptureDeviceKind::RawFile => "RawFile"@,
            CaptureDeviceKind::WavFile => "WavFile"@,
            CaptureDeviceKind::Stdin => "Stdin"@,
            CaptureDeviceKind::CoreAudio => "CoreAudio"@,
            CaptureDeviceKind::Wasapi => "Wasapi"@,
            CaptureDeviceKind::Jack => "Jack"@,
            CaptureDeviceKind::SignalGenerator => "SignalGenerator"@,
        }
    }

    open spec fn named(t: Seq<char>) -> Option<CaptureDeviceKind> {
        if t == "Alsa"@ || t == "ALSA"@ || t == "alsa"@ {
            Some(CaptureDeviceKind::Alsa)
        } else if t == "Bluez"@ || t == "BLUEZ"@ || t == "bluez"@ {
            Some(CaptureDeviceKind::Bluez)
        } else if t == "Pulse"@ || t == "PULSE"@ || t == "pulse"@ {
            Some(CaptureDeviceKind::Pulse)
        } else if t == "RawFile"@ {
            Some(CaptureDeviceKind::RawFile)
        } else if t == "WavFile"@ {
            Some(CaptureDeviceKind::WavFile)
        } else if t == "Stdin"@ || t == "STDIN"@ || t == "stdin"@ {
            Some(CaptureDeviceKind::Stdin)
        } else if t == "CoreAudio"@ || t == "COREAUDIO"@ || t == "coreaudio"@ {
            Some(CaptureDeviceKind::CoreAudio)
        } else if t == "Wasapi"@ || t == "WASAPI"@ || t == "wasapi"@ {
            Some(CaptureDeviceKind::Wasapi)
        } else if t == "Jack"@ || t == "JACK"@ || t == "jack"@ {
            Some(CaptureDeviceKind::Jack)
        } else if t == "SignalGenerator"@ {
            Some(CaptureDeviceKind::SignalGenerator)
        } else {
            None
        }
    }

    fn as_str(&self) -> (r: &'static str) {
        match self {
            CaptureDeviceKind::Alsa => "Alsa",
            CaptureDeviceKind::Bluez => "Bluez",
            CaptureDeviceKind::Pulse => "Pulse",
            CaptureDeviceKind::RawFile => "RawFile",
            CaptureDeviceKind::WavFile => "WavFile",
            CaptureDeviceKind::Stdin => "Stdin",
            CaptureDeviceKind::CoreAudio => "CoreAudio",
            CaptureDeviceKind::Wasapi => "Wasapi",
            CaptureDeviceKind::Jack => "Jack",
            CaptureDeviceKind::SignalGenerator => "SignalGenerator",
        }
    }

    fn from_name(t: &str) -> (r: Option<CaptureDeviceKind>) {
        if same_text(t, "Alsa") || same_text(t, "ALSA") || same_text(t, "alsa") {
            Some(CaptureDeviceKind::Alsa)
        } else if same_text(t, "Bluez") || same_text(t, "BLUEZ") || same_text(t, "bluez") {
            Some(CaptureDeviceKind::Bluez)
        } else if same_text(t, "Pulse") || same_text(t, "PULSE") || same_text(t, "pulse") {
            Some(CaptureDeviceKind::Pulse)
        } else if same_text(t, "RawFile") {
            Some(CaptureDeviceKind::RawFile)
        } else if same_text(t, "WavFile") {
            Some(CaptureDeviceKind::WavFile)
        } else if same_text(t, "Stdin") || same_text(t, "STDIN") || same_text(t, "stdin") {
            Some(CaptureDeviceKind::Stdin)
        } else if same_text(t, "CoreAudio") || same_text(t, "COREAUDIO") || same_text(t, "coreaudio") {
            Some(CaptureDeviceKind::CoreAudio)
        } else if same_text(t, "Wasapi") || same_text(t, "WASAPI") || same_text(t, "wasapi") {
            Some(CaptureDeviceKind::Wasapi)
        } else if same_text(t, "Jack") || same_text(t, "JACK") || same_text(t, "jack") {
            Some(CaptureDeviceKind::Jack)
        } else if same_text(t, "SignalGenerator") {
            Some(CaptureDeviceKind::SignalGenerator)
        } else {
            None
        }
    }

    proof fn lemma_named(self) {
        reveal_strlit("Alsa");
        reveal_strlit("ALSA");
        reveal_strlit("alsa");
        reveal_strlit("Bluez");
        reveal_strlit("BLUEZ");
        reveal_strlit("bluez");
        reveal_strlit("Pulse");
        reveal_strlit("PULSE");
        reveal_strlit("pulse");
        reveal_strlit("RawFile");
        reveal_strlit("WavFile");
        reveal_strlit("Stdin");
        reveal_strlit("STDIN");
        reveal_strlit("stdin");
        reveal_strlit("CoreAudio");
        reveal_strlit("COREAUDIO");
        reveal_strlit("coreaudio");
        reveal_strlit("Wasapi");
        reveal_strlit("WASAPI");
        reveal_strlit("wasapi");
        reveal_strlit("Jack");
        reveal_strlit("JACK");
        reveal_strlit("jack");
        reveal_strlit("SignalGenerator");
        assert("Alsa"@.len() == 4 && "Alsa"@[0] == 'A' && "Alsa"@[1] == 'l');
        assert("ALSA"@.len() == 4 && "ALSA"@[0] == 'A' && "ALSA"@[1] == 'L');
        assert("alsa"@.len() == 4 && "alsa"@[0] == 'a');
        assert("Bluez"@.len() == 5 && "Bluez"@[0] == 'B' && "Bluez"@[1] == 'l');
        assert("BLUEZ"@.len() == 5 && "BLUEZ"@[0] == 'B' && "BLUEZ"@[1] == 'L');
        assert("bluez"@.len() == 5 && "bluez"@[0] == 'b');
        assert("Pulse"@.len() == 5 && "Pulse"@[0] == 'P' && "Pulse"@[1] == 'u');
        assert("PULSE"@.len() == 5 && "PULSE"@[0] == 'P' && "PULSE"@[1] == 'U');
        assert("pulse"@.len() == 5 && "pulse"@[0] == 'p');
        assert("RawFile"@.len() == 7 && "RawFile"@[0] == 'R');
        assert("WavFile"@.len() == 7 && "WavFile"@[0] == 'W');
        assert("Stdin"@.len() == 5 && "Stdin"@[0] == 'S' && "Stdin"@[1] == 't');
        assert("STDIN"@.len() == 5 && "STDIN"@[0] == 'S' && "STDIN"@[1] == 'T');
        assert("stdin"@.len() == 5 && "stdin"@[0] == 's');
        assert("CoreAudio"@.len() == 9 && "CoreAudio"@[0] == 'C' && "CoreAudio"@[1] == 'o');
        assert("COREAUDIO"@.len() == 9 && "COREAUDIO"@[0] == 'C' && "COREAUDIO"@[1] == 'O');
        assert("coreaudio"@.len() == 9 && "coreaudio"@[0] == 'c');
        assert("Wasapi"@.len() == 6 && "Wasapi"@[0] == 'W' && "Wasapi"@[1] == 'a');
        assert("WASAPI"@.len() == 6 && "WASAPI"@[0] == 'W' && "WASAPI"@[1] == 'A');
        assert("wasapi"@.len() == 6 && "wasapi"@[0] == 'w');
        assert("Jack"@.len() == 4 && "Jack"@[0] == 'J' && "Jack"@[1] == 'a');
        assert("JACK"@.len() == 4 && "JACK"@[0] == 'J' && "JACK"@[1] == 'A');
        assert("jack"@.len() == 4 && "jack"@[0] == 'j');
        assert("SignalGenerator"@.len() == 15);
    }
}

impl CaptureDeviceKind {
    /// Each spelling that is read selects its discriminant: the one that is
    /// written, and the same in capitals and in small letters where those are
    /// read too.
    pub proof fn lemma_spellings()
        ensures
            Self::named("Alsa"@) == Some(CaptureDeviceKind::Alsa),
            Self::named("ALSA"@) == Some(CaptureDeviceKind::Alsa),
            Self::named("alsa"@) == Some(CaptureDeviceKind::Alsa),
            Self::named("Bluez"@) == Some(CaptureDeviceKind::Bluez),
            Self::named("BLUEZ"@) == Some(CaptureDeviceKind::Bluez),
            Self::named("bluez"@) == Some(CaptureDeviceKind::Bluez),
            Self::named("Pulse"@) == Some(CaptureDeviceKind::Pulse),
            Self::named("PULSE"@) == Some(CaptureDeviceKind::Pulse),
            Self::named("pulse"@) == Some(CaptureDeviceKind::Pulse),
            Self::named("RawFile"@) == Some(CaptureDeviceKind::RawFile),
            Self::named("WavFile"@) == Some(CaptureDeviceKind::WavFile),
            Self::named("Stdin"@) == Some(CaptureDeviceKind::Stdin),
            Self::named("STDIN"@) == Some(CaptureDeviceKind::Stdin),
            Self::named("stdin"@) == Some(CaptureDeviceKind::Stdin),
            Self::named("CoreAudio"@) == Some(CaptureDeviceKind::CoreAudio),
            Self::named("COREAUDIO"@) == Some(CaptureDeviceKind::CoreAudio),
            Self::named("coreaudio"@) == Some(CaptureDeviceKind::CoreAudio),
            Self::named("Wasapi"@) == Some(CaptureDeviceKind::Wasapi),
            Self::named("WASAPI"@) == Some(CaptureDeviceKind::Wasapi),
            Self::named("wasapi"@) == Some(CaptureDeviceKind::Wasapi),
            Self::named("Jack"@) == Some(CaptureDeviceKind::Jack),
            Self::named("JACK"@) == Some(CaptureDeviceKind::Jack),
            Self::named("jack"@) == Some(CaptureDeviceKind::Jack),
            Self::named("SignalGenerator"@) == Some(CaptureDeviceKind::SignalGenerator),
    {
        reveal_strlit("Alsa");
        reveal_strlit("ALSA");
        reveal_strlit("alsa");
        reveal_strlit("Bluez");
        reveal_strlit("BLUEZ");
        reveal_strlit("bluez");
        reveal_strlit("Pulse");
        reveal_strlit("PULSE");
        reveal_strlit("pulse");
        reveal_strlit("RawFile");
        reveal_strlit("WavFile");
        reveal_strlit("Stdin");
        reveal_strlit("STDIN");
        reveal_strlit("stdin");
        reveal_strlit("CoreAudio");
        reveal_strlit("COREAUDIO");
        reveal_strlit("coreaudio");
        reveal_strlit("Wasapi");
        reveal_strlit("WASAPI");
        reveal_strlit("wasapi");
        reveal_strlit("Jack");
        reveal_strlit("JACK");
        reveal_strlit("jack");
        reveal_strlit("SignalGenerator");
        assert("Alsa"@.len() == 4 && "Alsa"@[0] == 'A' && "Alsa"@[1] == 'l');
        assert("ALSA"@.len() == 4 && "ALSA"@[0] == 'A' && "ALSA"@[1] == 'L');
        assert("alsa"@.len() == 4 && "alsa"@[0] == 'a');
        assert("Bluez"@.len() == 5 && "Bluez"@[0] == 'B' && "Bluez"@[1] == 'l');
        assert("BLUEZ"@.len() == 5 && "BLUEZ"@[0] == 'B' && "BLUEZ"@[1] == 'L');
        assert("bluez"@.len() == 5 && "bluez"@[0] == 'b');
        assert("Pulse"@.len() == 5 && "Pulse"@[0] == 'P' && "Pulse"@[1] == 'u');
        assert("PULSE"@.len() == 5 && "PULSE"@[0] == 'P' && "PULSE"@[1] == 'U');
        assert("pulse"@.len() == 5 && "pulse"@[0] == 'p');
        assert("RawFile"@.len() == 7 && "RawFile"@[0] == 'R');
        assert("WavFile"@.len() == 7 && "WavFile"@[0] == 'W');
        assert("Stdin"@.len() == 5 && "Stdin"@[0] == 'S' && "Stdin"@[1] == 't');
        assert("STDIN"@.len() == 5 && "STDIN"@[0] == 'S' && "STDIN"@[1] == 'T');
        assert("stdin"@.len() == 5 && "stdin"@[0] == 's');
        assert("CoreAudio"@.len() == 9 && "CoreAudio"@[0] == 'C' && "CoreAudio"@[1] == 'o');
        assert("COREAUDIO"@.len() == 9 && "COREAUDIO"@[0] == 'C' && "COREAUDIO"@[1] == 'O');
        assert("coreaudio"@.len() == 9 && "coreaudio"@[0] == 'c');
        assert("Wasapi"@.len() == 6 && "Wasapi"@[0] == 'W' && "Wasapi"@[1] == 'a');
        assert("WASAPI"@.len() == 6 && "WASAPI"@[0] == 'W' && "WASAPI"@[1] == 'A');
        assert("wasapi"@.len() == 6 && "wasapi"@[0] == 'w');
        assert("Jack"@.len() == 4 && "Jack"@[0] == 'J' && "Jack"@[1] == 'a');
        assert("JACK"@.len() == 4 && "JACK"@[0] == 'J' && "JACK"@[1] == 'A');
        assert("jack"@.len() == 4 && "jack"@[0] == 'j');
        assert("SignalGenerator"@.len() == 15);
    }
}

impl DeepView for CaptureDevice {
    type V = CaptureDeviceView;

    open spec fn deep_view(&self) -> CaptureDeviceView {
        match self {
            CaptureDevice::Alsa { channels, device, format, stop_on_inactive, link_volume_control, link_mute_control, labels } => CaptureDeviceView::Alsa {
                channels: channels.deep_view(),
                device: device.deep_view(),
                format: format.deep_view(),
                stop_on_inactive: stop_on_inactive.deep_view(),
                link_volume_control: link_volume_control.deep_view(),
                link_mute_control: link_mute_control.deep_view(),
                labels: labels.deep_view(),
            },
            CaptureDevice::Bluez(p) => CaptureDeviceView::Bluez(p.deep_view()),
            CaptureDevice::Pulse { channels, device, format, labels } => CaptureDeviceView::Pulse {
                channels: channels.deep_view(),
                device: device.deep_view(),
                format: format.deep_view(),
                labels: labels.deep_view(),
            },
            CaptureDevice::RawFile(p) => CaptureDeviceView::RawFile(p.deep_view()),
            CaptureDevice::WavFile(p) => CaptureDeviceView::WavFile(p.deep_view()),
            CaptureDevice::Stdin(p) => CaptureDeviceView::Stdin(p.deep_view()),
            CaptureDevice::CoreAudio(p) => CaptureDeviceView::CoreAudio(p.deep_view()),
            CaptureDevice::Wasapi(p) => CaptureDeviceView::Wasapi(p.deep_view()),
            CaptureDevice::Jack { channels, device, labels } => CaptureDeviceView::Jack {
                channels: channels.deep_view(),
                device: device.deep_view(),
                labels: labels.deep_view(),
            },
            CaptureDevice::SignalGenerator { channels, signal, labels } => CaptureDeviceView::SignalGenerator {
                channels: channels.deep_view(),
                signal: signal.deep_view(),
                labels: labels.deep_view(),
            },
        }
    }
}

impl CaptureDevice {
    /// The keys that the variant `Alsa` declares.
    pub open spec fn names_alsa() -> Seq<Seq<char>> {
        seq![
            "channels"@, "device"@, "format"@, "stop_on_inactive"@, "link_volume_control"@,
            "link_mute_control"@, "labels"@,
        ]
    }

    /// The keys of the variant `Alsa` are distinct, and none is the key of a discriminant.
    pub proof fn lemma_names_alsa()
        ensures
            Self::names_alsa().no_duplicates(),
            !Self::names_alsa().contains(tag_key()),
    {
        reveal_strlit("type");
        reveal_strlit("channels");
        reveal_strlit("device");
        reveal_strlit("format");
        reveal_strlit("stop_on_inactive");
        reveal_strlit("link_volume_control");
        reveal_strlit("link_mute_control");
        reveal_strlit("labels");
        assert("type"@.len() == 4);
        assert("channels"@.len() == 8);
        assert("device"@.len() == 6 && "device"@[0] == 'd');
        assert("format"@.len() == 6 && "format"@[0] == 'f');
        assert("stop_on_inactive"@.len() == 16);
        assert("link_volume_control"@.len() == 19);
        assert("link_mute_control"@.len() == 17);
        assert("labels"@.len() == 6 && "labels"@[0] == 'l');
    }

    /// What the variant `Alsa` writes: one slot for each field.
    pub open spec fn slots_alsa(channels: usize, device: Seq<char>, format: Option<SampleFormat>, stop_on_inactive: Option<bool>, link_volume_control: Option<Seq<char>>, link_mute_control: Option<Seq<char>>, labels: Option<Seq<Option<Seq<char>>>>) -> Seq<Slot> {
        seq![
            slot::<usize>("channels"@, channels),
            slot::<String>("device"@, device),
            slot_opt::<SampleFormat>("format"@, format),
            slot_opt::<bool>("stop_on_inactive"@, stop_on_inactive),
            slot_opt::<String>("link_volume_control"@, link_volume_control),
            slot_opt::<String>("link_mute_control"@, link_mute_control),
            slot_opt::<Vec<Option<String>>>("labels"@, labels),
        ]
    }

    /// What entries stand for, read as the variant `Alsa`.
    pub open spec fn decode_alsa(m: Entries) -> Result<CaptureDeviceView, Fault> {
        let channels = required::<usize>(m, "channels"@);
        let device = required::<String>(m, "device"@);
        let format = optional::<SampleFormat>(m, "format"@);
        let stop_on_inactive = optional::<bool>(m, "stop_on_inactive"@);
        let link_volume_control = optional::<String>(m, "link_volume_control"@);
        let link_mute_control = optional::<String>(m, "link_mute_control"@);
        let labels = optional::<Vec<Option<String>>>(m, "labels"@);
        if let Some(e) = unknown_field(m, Self::names_alsa()) {
            Err(e)
        } else if channels is Err {
            Err(channels->Err_0)
        } else if device is Err {
            Err(device->Err_0)
        } else if format is Err {
            Err(format->Err_0)
        } else if stop_on_inactive is Err {
            Err(stop_on_inactive->Err_0)
        } else if link_volume_control is Err {
            Err(link_volume_control->Err_0)
        } else if link_mute_control is Err {
            Err(link_mute_control->Err_0)
        } else if labels is Err {
            Err(labels->Err_0)
        } else {
            Ok(
                CaptureDeviceView::Alsa {
                    channels: channels->Ok_0,
                    device: device->Ok_0,
                    format: format->Ok_0,
                    stop_on_inactive: stop_on_inactive->Ok_0,
                    link_volume_control: link_volume_control->Ok_0,
                    link_mute_control: link_mute_control->Ok_0,
                    labels: labels->Ok_0,
                },
            )
        }
    }

    /// Reads the variant `Alsa`.
    pub fn read_alsa(f: &Fields) -> (r: Result<CaptureDevice, SchemaError>)
        ensures
            r matches Ok(x) ==> Self::decode_alsa(f@) == Ok::<CaptureDeviceView, Fault>(x.deep_view()),
            r matches Err(e) ==> Self::decode_alsa(f@) == Err::<CaptureDeviceView, Fault>(e.deep_view()),
    {
        let known = vec![
            "channels", "device", "format", "stop_on_inactive", "link_volume_control",
            "link_mute_control", "labels",
        ];
        proof {
            assert(texts(known@) =~= Self::names_alsa());
        }
        f.deny_unknown(&known)?;
        let channels = f.required::<usize>("channels")?;
        let device = f.required::<String>("device")?;
        let format = f.optional::<SampleFormat>("format")?;
        let stop_on_inactive = f.optional::<bool>("stop_on_inactive")?;
        let link_volume_control = f.optional::<String>("link_volume_control")?;
        let link_mute_control = f.optional::<String>("link_mute_control")?;
        let labels = f.optional::<Vec<Option<String>>>("labels")?;
        Ok(CaptureDevice::Alsa { channels, device, format, stop_on_inactive, link_volume_control, link_mute_control, labels })
    }

    /// Writes the fields of the variant `Alsa` after what `w` holds.
    pub fn write_alsa(w: Writer, channels: &usize, device: &String, format: &Option<SampleFormat>, stop_on_inactive: &Option<bool>, link_volume_control: &Option<String>, link_mute_control: &Option<String>, labels: &Option<Vec<Option<String>>>) -> (r: Writer)
        ensures
            r.slots() == w.slots() + Self::slots_alsa(channels.deep_view(), device.deep_view(), format.deep_view(), stop_on_inactive.deep_view(), link_volume_control.deep_view(), link_mute_control.deep_view(), labels.deep_view()),
    {
        let ghost before = w.slots();
        let w = w.put::<usize>("channels", channels);
        let w = w.put::<String>("device", device);
        let w = w.put_opt::<SampleFormat>("format", format);
        let w = w.put_opt::<bool>("stop_on_inactive", stop_on_inactive);
        let w = w.put_opt::<String>("link_volume_control", link_volume_control);
        let w = w.put_opt::<String>("link_mute_control", link_mute_control);
        let w = w.put_opt::<Vec<Option<String>>>("labels", labels);
        proof {
            assert(w.slots() =~= before + Self::slots_alsa(channels.deep_view(), device.deep_view(), format.deep_view(), stop_on_inactive.deep_view(), link_volume_control.deep_view(), link_mute_control.deep_view(), labels.deep_view()));
        }
        w
    }

    /// Reading what the variant `Alsa` wrote gives the fields back.
    pub proof fn lemma_alsa(channels: usize, device: Seq<char>, format: Option<SampleFormat>, stop_on_inactive: Option<bool>, link_volume_control: Option<Seq<char>>, link_mute_control: Option<Seq<char>>, labels: Option<Seq<Option<Seq<char>>>>)
        ensures
            distinct_names(Self::slots_alsa(channels, device, format, stop_on_inactive, link_volume_control, link_mute_control, labels)),
            !names_slot(Self::slots_alsa(channels, device, format, stop_on_inactive, link_volume_control, link_mute_control, labels), tag_key()),
            Self::decode_alsa(present(Self::slots_alsa(channels, device, format, stop_on_inactive, link_volume_control, link_mute_control, labels))) == Ok::<CaptureDeviceView, Fault>(
                CaptureDeviceView::Alsa { channels: channels, device: device, format: format, stop_on_inactive: stop_on_inactive, link_volume_control: link_volume_control, link_mute_control: link_mute_control, labels: labels },
            ),
    {
        Self::lemma_names_alsa();
        let s = Self::slots_alsa(channels, device, format, stop_on_inactive, link_volume_control, link_mute_control, labels);
        lemma_slot_names(s, Self::names_alsa());
        lemma_present_known(s, Self::names_alsa());
        lemma_required::<usize>(s, 0, "channels"@, channels);
        lemma_required::<String>(s, 1, "device"@, device);
        lemma_optional::<SampleFormat>(s, 2, "format"@, format);
        lemma_optional::<bool>(s, 3, "stop_on_inactive"@, stop_on_inactive);
        lemma_optional::<String>(s, 4, "link_volume_control"@, link_volume_control);
        lemma_optional::<String>(s, 5, "link_mute_control"@, link_mute_control);
        lemma_optional::<Vec<Option<String>>>(s, 6, "labels"@, labels);
    }

    /// What the variant `Alsa` writes is like any entries that its fields were read from.
    pub proof fn lemma_like_alsa(m: Entries)
        requires
            distinct_keys(m),
        ensures
            Self::decode_alsa(m) matches Ok(CaptureDeviceView::Alsa { channels, device, format, stop_on_inactive, link_volume_control, link_mute_control, labels }) ==> alike_entries(
                m,
                present(Self::slots_alsa(channels, device, format, stop_on_inactive, link_volume_control, link_mute_control, labels)),
            ),
    {
        if let Ok(CaptureDeviceView::Alsa { channels, device, format, stop_on_inactive, link_volume_control, link_mute_control, labels }) = Self::decode_alsa(m) {
            Self::lemma_names_alsa();
            lemma_unknown_field(m, Self::names_alsa());
            let s = lemma_matched_none(m);
            let s = lemma_matched_required::<usize>(m, s, "channels"@, channels);
            let s = lemma_matched_required::<String>(m, s, "device"@, device);
            let s = lemma_matched_optional::<SampleFormat>(m, s, "format"@, format);
            let s = lemma_matched_optional::<bool>(m, s, "stop_on_inactive"@, stop_on_inactive);
            let s = lemma_matched_optional::<String>(m, s, "link_volume_control"@, link_volume_control);
            let s = lemma_matched_optional::<String>(m, s, "link_mute_control"@, link_mute_control);
            let s = lemma_matched_optional::<Vec<Option<String>>>(m, s, "labels"@, labels);
            assert(s =~= Self::slots_alsa(channels, device, format, stop_on_inactive, link_volume_control, link_mute_control, labels));
            lemma_slot_names(s, Self::names_alsa());
            lemma_alike_slots(m, s, Self::names_alsa());
        }
    }

    /// The keys that the variant `Pulse` declares.
    pub open spec fn names_pulse() -> Seq<Seq<char>> {
        seq!["channels"@, "device"@, "format"@, "labels"@]
    }

    /// The keys of the variant `Pulse` are distinct, and none is the key of a discriminant.
    pub proof fn lemma_names_pulse()
        ensures
            Self::names_pulse().no_duplicates(),
            !Self::names_pulse().contains(tag_key()),
    {
        reveal_strlit("type");
        reveal_strlit("channels");
        reveal_strlit("device");
        reveal_strlit("format");
        reveal_strlit("labels");
        assert("type"@.len() == 4);
        assert("channels"@.len() == 8);
        assert("device"@.len() == 6 && "device"@[0] == 'd');
        assert("format"@.len() == 6 && "format"@[0] == 'f');
        assert("labels"@.len() == 6 && "labels"@[0] == 'l');
    }

    /// What the variant `Pulse` writes: one slot for each field.
    pub open spec fn slots_pulse(channels: usize, device: Seq<char>, format: SampleFormat, labels: Option<Seq<Option<Seq<char>>>>) -> Seq<Slot> {
        seq![
            slot::<usize>("channels"@, channels),
            slot::<String>("device"@, device),
            slot::<SampleFormat>("format"@, format),
            slot_opt::<Vec<Option<String>>>("labels"@, labels),
        ]
    }

    /// What entries stand for, read as the variant `Pulse`.
    pub open spec fn decode_pulse(m: Entries) -> Result<CaptureDeviceView, Fault> {
        let channels = required::<usize>(m, "channels"@);
        let device = required::<String>(m, "device"@);
        let format = required::<SampleFormat>(m, "format"@);
        let labels = optional::<Vec<Option<String>>>(m, "labels"@);
        if let Some(e) = unknown_field(m, Self::names_pulse()) {
            Err(e)
        } else if channels is Err {
            Err(channels->Err_0)
        } else if device is Err {
            Err(device->Err_0)
        } else if format is Err {
            Err(format->Err_0)
        } else if labels is Err {
            Err(labels->Err_0)
        } else {
            Ok(
                CaptureDeviceView::Pulse {
                    channels: channels->Ok_0,
                    device: device->Ok_0,
                    format: format->Ok_0,
                    labels: labels->Ok_0,
                },
            )
        }
    }

    /// Reads the variant `Pulse`.
    pub fn read_pulse(f: &Fields) -> (r: Result<CaptureDevice, SchemaError>)
        ensures
            r matches Ok(x) ==> Self::decode_pulse(f@) == Ok::<CaptureDeviceView, Fault>(x.deep_view()),
            r matches Err(e) ==> Self::decode_pulse(f@) == Err::<CaptureDeviceView, Fault>(e.deep_view()),
    {
        let known = vec!["channels", "device", "format", "labels"];
        proof {
            assert(texts(known@) =~= Self::names_pulse());
        }
        f.deny_unknown(&known)?;
        let channels = f.required::<usize>("channels")?;
        let device = f.required::<String>("device")?;
        let format = f.required::<SampleFormat>("format")?;
        let labels = f.optional::<Vec<Option<String>>>("labels")?;
        Ok(CaptureDevice::Pulse { channels, device, format, labels })
    }

    /// Writes the fields of the variant `Pulse` after what `w` holds.
    pub fn write_pulse(w: Writer, channels: &usize, device: &String, format: &SampleFormat, labels: &Option<Vec<Option<String>>>) -> (r: Writer)
        ensures
            r.slots() == w.slots() + Self::slots_pulse(channels.deep_view(), device.deep_view(), format.deep_view(), labels.deep_view()),
    {
        let ghost before = w.slots();
        let w = w.put::<usize>("channels", channels);
        let w = w.put::<String>("device", device);
        let w = w.put::<SampleFormat>("format", format);
        let w = w.put_opt::<Vec<Option<String>>>("labels", labels);
        proof {
            assert(w.slots() =~= before + Self::slots_pulse(channels.deep_view(), device.deep_view(), format.deep_view(), labels.deep_view()));
        }
        w
    }

    /// Reading what the variant `Pulse` wrote gives the fields back.
    pub proof fn lemma_pulse(channels: usize, device: Seq<char>, format: SampleFormat, labels: Option<Seq<Option<Seq<char>>>>)
        ensures
            distinct_names(Self::slots_pulse(channels, device, format, labels)),
            !names_slot(Self::slots_pulse(channels, device, format, labels), tag_key()),
            Self::decode_pulse(present(Self::slots_pulse(channels, device, format, labels))) == Ok::<CaptureDeviceView, Fault>(
                CaptureDeviceView::Pulse { channels: channels, device: device, format: format, labels: labels },
            ),
    {
        Self::lemma_names_pulse();
        let s = Self::slots_pulse(channels, device, format, labels);
        lemma_slot_names(s, Self::names_pulse());
        lemma_present_known(s, Self::names_pulse());
        lemma_required::<usize>(s, 0, "channels"@, channels);
        lemma_required::<String>(s, 1, "device"@, device);
        lemma_required::<SampleFormat>(s, 2, "format"@, format);
        lemma_optional::<Vec<Option<String>>>(s, 3, "labels"@, labels);
    }

    /// What the variant `Pulse` writes is like any entries that its fields were read from.
    pub proof fn lemma_like_pulse(m: Entries)
        requires
            distinct_keys(m),
        ensures
            Self::decode_pulse(m) matches Ok(CaptureDeviceView::Pulse { channels, device, format, labels }) ==> alike_entries(
                m,
                present(Self::slots_pulse(channels, device, format, labels)),
            ),
    {
        if let Ok(CaptureDeviceView::Pulse { channels, device, format, labels }) = Self::decode_pulse(m) {
            Self::lemma_names_pulse();
            lemma_unknown_field(m, Self::names_pulse());
            let s = lemma_matched_none(m);
            let s = lemma_matched_required::<usize>(m, s, "channels"@, channels);
            let s = lemma_matched_required::<String>(m, s, "device"@, device);
            let s = lemma_matched_required::<SampleFormat>(m, s, "format"@, format);
            let s = lemma_matched_optional::<Vec<Option<String>>>(m, s, "labels"@, labels);
            assert(s =~= Self::slots_pulse(channels, device, format, labels));
            lemma_slot_names(s, Self::names_pulse());
            lemma_alike_slots(m, s, Self::names_pulse());
        }
    }

    /// The keys that the variant `Jack` declares.
    pub open spec fn names_jack() -> Seq<Seq<char>> {
        seq!["channels"@, "device"@, "labels"@]
    }

    /// The keys of the variant `Jack` are distinct, and none is the key of a discriminant.
    pub proof fn lemma_names_jack()
        ensures
            Self::names_jack().no_duplicates(),
            !Self::names_jack().contains(tag_key()),
    {
        reveal_strlit("type");
        reveal_strlit("channels");
        reveal_strlit("device");
        reveal_strlit("labels");
        assert("type"@.len() == 4);
        assert("channels"@.len() == 8);
        assert("device"@.len() == 6 && "device"@[0] == 'd');
        assert("labels"@.len() == 6 && "labels"@[0] == 'l');
    }

    /// What the variant `Jack` writes: one slot for each field.
    pub open spec fn slots_jack(channels: usize, device: Seq<char>, labels: Option<Seq<Option<Seq<char>>>>) -> Seq<Slot> {
        seq![
            slot::<usize>("channels"@, channels),
            slot::<String>("device"@, device),
            slot_opt::<Vec<Option<String>>>("labels"@, labels),
        ]
    }

    /// What entries stand for, read as the variant `Jack`.
    pub open spec fn decode_jack(m: Entries) -> Result<CaptureDeviceView, Fault> {
        let channels = required::<usize>(m, "channels"@);
        let device = required::<String>(m, "device"@);
        let labels = optional::<Vec<Option<String>>>(m, "labels"@);
        if let Some(e) = unknown_field(m, Self::names_jack()) {
            Err(e)
        } else if channels is Err {
            Err(channels->Err_0)
        } else if device is Err {
            Err(device->Err_0)
        } else if labels is Err {
            Err(labels->Err_0)
        } else {
            Ok(
                CaptureDeviceView::Jack {
                    channels: channels->Ok_0,
                    device: device->Ok_0,
                    labels: labels->Ok_0,
                },
            )
        }
    }

    /// Reads the variant `Jack`.
    pub fn read_jack(f: &Fields) -> (r: Result<CaptureDevice, SchemaError>)
        ensures
            r matches Ok(x) ==> Self::decode_jack(f@) == Ok::<CaptureDeviceView, Fault>(x.deep_view()),
            r matches Err(e) ==> Self::decode_jack(f@) == Err::<CaptureDeviceView, Fault>(e.deep_view()),
    {
        let known = vec!["channels", "device", "labels"];
        proof {
            assert(texts(known@) =~= Self::names_jack());
        }
        f.deny_unknown(&known)?;
        let channels = f.required::<usize>("channels")?;
        let device = f.required::<String>("device")?;
        let labels = f.optional::<Vec<Option<String>>>("labels")?;
        Ok(CaptureDevice::Jack { channels, device, labels })
    }

    /// Writes the fields of the variant `Jack` after what `w` holds.
    pub fn write_jack(w: Writer, channels: &usize, device: &String, labels: &Option<Vec<Option<String>>>) -> (r: Writer)
        ensures
            r.slots() == w.slots() + Self::slots_jack(channels.deep_view(), device.deep_view(), labels.deep_view()),
    {
        let ghost before = w.slots();
        let w = w.put::<usize>("channels", channels);
        let w = w.put::<String>("device", device);
        let w = w.put_opt::<Vec<Option<String>>>("labels", labels);
        proof {
            assert(w.slots() =~= before + Self::slots_jack(channels.deep_view(), device.deep_view(), labels.deep_view()));
        }
        w
    }

    /// Reading what the variant `Jack` wrote gives the fields back.
    pub proof fn lemma_jack(channels: usize, device: Seq<char>, labels: Option<Seq<Option<Seq<char>>>>)
        ensures
            distinct_names(Self::slots_jack(channels, device, labels)),
            !names_slot(Self::slots_jack(channels, device, labels), tag_key()),
            Self::decode_jack(present(Self::slots_jack(channels, device, labels))) == Ok::<CaptureDeviceView, Fault>(
                CaptureDeviceView::Jack { channels: channels, device: device, labels: labels },
            ),
    {
        Self::lemma_names_jack();
        let s = Self::slots_jack(channels, device, labels);
        lemma_slot_names(s, Self::names_jack());
        lemma_present_known(s, Self::names_jack());
        lemma_required::<usize>(s, 0, "channels"@, channels);
        lemma_required::<String>(s, 1, "device"@, device);
        lemma_optional::<Vec<Option<String>>>(s, 2, "labels"@, labels);
    }

    /// What the variant `Jack` writes is like any entries that its fields were read from.
    pub proof fn lemma_like_jack(m: Entries)
        requires
            distinct_keys(m),
        ensures
            Self::decode_jack(m) matches Ok(CaptureDeviceView::Jack { channels, device, labels }) ==> alike_entries(
                m,
                present(Self::slots_jack(channels, device, labels)),
            ),
    {
        if let Ok(CaptureDeviceView::Jack { channels, device, labels }) = Self::decode_jack(m) {
            Self::lemma_names_jack();
            lemma_unknown_field(m, Self::names_jack());
            let s = lemma_matched_none(m);
            let s = lemma_matched_required::<usize>(m, s, "channels"@, channels);
            let s = lemma_matched_required::<String>(m, s, "device"@, device);
            let s = lemma_matched_optional::<Vec<Option<String>>>(m, s, "labels"@, labels);
            assert(s =~= Self::slots_jack(channels, device, labels));
            lemma_slot_names(s, Self::names_jack());
            lemma_alike_slots(m, s, Self::names_jack());
        }
    }

    /// The keys that the variant `SignalGenerator` declares.
    pub open spec fn names_signal_generator() -> Seq<Seq<char>> {
        seq!["channels"@, "signal"@, "labels"@]
    }

    /// The keys of the variant `SignalGenerator` are distinct, and none is the key of a discriminant.
    pub proof fn lemma_names_signal_generator()
        ensures
            Self::names_signal_generator().no_duplicates(),
            !Self::names_signal_generator().contains(tag_key()),
    {
        reveal_strlit("type");
        reveal_strlit("channels");
        reveal_strlit("signal");
        reveal_strlit("labels");
        assert("type"@.len() == 4);
        assert("channels"@.len() == 8);
        assert("signal"@.len() == 6 && "signal"@[0] == 's');
        assert("labels"@.len() == 6 && "labels"@[0] == 'l');
    }

    /// What the variant `SignalGenerator` writes: one slot for each field.
    pub open spec fn slots_signal_generator(channels: usize, signal: SignalView, labels: Option<Seq<Option<Seq<char>>>>) -> Seq<Slot> {
        seq![
            slot::<usize>("channels"@, channels),
            slot::<Signal>("signal"@, signal),
            slot_opt::<Vec<Option<String>>>("labels"@, labels),
        ]
    }

    /// What entries stand for, read as the variant `SignalGenerator`.
    pub open spec fn decode_signal_generator(m: Entries) -> Result<CaptureDeviceView, Fault> {
        let channels = required::<usize>(m, "channels"@);
        let signal = required::<Signal>(m, "signal"@);
        let labels = optional::<Vec<Option<String>>>(m, "labels"@);
        if let Some(e) = unknown_field(m, Self::names_signal_generator()) {
            Err(e)
        } else if channels is Err {
            Err(channels->Err_0)
        } else if signal is Err {
            Err(signal->Err_0)
        } else if labels is Err {
            Err(labels->Err_0)
        } else {
            Ok(
                CaptureDeviceView::SignalGenerator {
                    channels: channels->Ok_0,
                    signal: signal->Ok_0,
                    labels: labels->Ok_0,
                },
            )
        }
    }

    /// Reads the variant `SignalGenerator`.
    pub fn read_signal_generator(f: &Fields) -> (r: Result<CaptureDevice, SchemaError>)
        ensures
            r matches Ok(x) ==> Self::decode_signal_generator(f@) == Ok::<CaptureDeviceView, Fault>(x.deep_view()),
            r matches Err(e) ==> Self::decode_signal_generator(f@) == Err::<CaptureDeviceView, Fault>(e.deep_view()),
    {
        let known = vec!["channels", "signal", "labels"];
        proof {
            assert(texts(known@) =~= Self::names_signal_generator());
        }
        f.deny_unknown(&known)?;
        let channels = f.required::<usize>("channels")?;
        let signal = f.required::<Signal>("signal")?;
        let labels = f.optional::<Vec<Option<String>>>("labels")?;
        Ok(CaptureDevice::SignalGenerator { channels, signal, labels })
    }

    /// Writes the fields of the variant `SignalGenerator` after what `w` holds.
    pub fn write_signal_generator(w: Writer, channels: &usize, signal: &Signal, labels: &Option<Vec<Option<String>>>) -> (r: Writer)
        ensures
            r.slots() == w.slots() + Self::slots_signal_generator(channels.deep_view(), signal.deep_view(), labels.deep_view()),
    {
        let ghost before = w.slots();
        let w = w.put::<usize>("channels", channels);
        let w = w.put::<Signal>("signal", signal);
        let w = w.put_opt::<Vec<Option<String>>>("labels", labels);
        proof {
            assert(w.slots() =~= before + Self::slots_signal_generator(channels.deep_view(), signal.deep_view(), labels.deep_view()));
        }
        w
    }

    /// Reading what the variant `SignalGenerator` wrote gives the fields back.
    pub proof fn lemma_signal_generator(channels: usize, signal: SignalView, labels: Option<Seq<Option<Seq<char>>>>)
        ensures
            distinct_names(Self::slots_signal_generator(channels, signal, labels)),
            !names_slot(Self::slots_signal_generator(channels, signal, labels), tag_key()),
            Self::decode_signal_generator(present(Self::slots_signal_generator(channels, signal, labels))) == Ok::<CaptureDeviceView, Fault>(
                CaptureDeviceView::SignalGenerator { channels: channels, signal: signal, labels: labels },
            ),
    {
        Self::lemma_names_signal_generator();
        let s = Self::slots_signal_generator(channels, signal, labels);
        lemma_slot_names(s, Self::names_signal_generator());
        lemma_present_known(s, Self::names_signal_generator());
        lemma_required::<usize>(s, 0, "channels"@, channels);
        lemma_required::<Signal>(s, 1, "signal"@, signal);
        lemma_optional::<Vec<Option<String>>>(s, 2, "labels"@, labels);
    }

    /// What the variant `SignalGenerator` writes is like any entries that its fields were read from.
    pub proof fn lemma_like_signal_generator(m: Entries)
        requires
            distinct_keys(m),
        ensures
            Self::decode_signal_generator(m) matches Ok(CaptureDeviceView::SignalGenerator { channels, signal, labels }) ==> alike_entries(
                m,
                present(Self::slots_signal_generator(channels, signal, labels)),
            ),
    {
        if let Ok(CaptureDeviceView::SignalGenerator { channels, signal, labels }) = Self::decode_signal_generator(m) {
            Self::lemma_names_signal_generator();
            lemma_unknown_field(m, Self::names_signal_generator());
            let s = lemma_matched_none(m);
            let s = lemma_matched_required::<usize>(m, s, "channels"@, channels);
            let s = lemma_matched_required::<Signal>(m, s, "signal"@, signal);
            let s = lemma_matched_optional::<Vec<Option<String>>>(m, s, "labels"@, labels);
            assert(s =~= Self::slots_signal_generator(channels, signal, labels));
            lemma_slot_names(s, Self::names_signal_generator());
            lemma_alike_slots(m, s, Self::names_signal_generator());
        }
    }

    /// The discriminant of a value.
    pub open spec fn kind_of(v: CaptureDeviceView) -> CaptureDeviceKind {
        match v {
            CaptureDeviceView::Alsa { .. } => CaptureDeviceKind::Alsa,
            CaptureDeviceView::Bluez(_) => CaptureDeviceKind::Bluez,
            CaptureDeviceView::Pulse { .. } => CaptureDeviceKind::Pulse,
            CaptureDeviceView::RawFile(_) => CaptureDeviceKind::RawFile,
            CaptureDeviceView::WavFile(_) => CaptureDeviceKind::WavFile,
            CaptureDeviceView::Stdin(_) => CaptureDeviceKind::Stdin,
            CaptureDeviceView::CoreAudio(_) => CaptureDeviceKind::CoreAudio,
            CaptureDeviceView::Wasapi(_) => CaptureDeviceKind::Wasapi,
            CaptureDeviceView::Jack { .. } => CaptureDeviceKind::Jack,
            CaptureDeviceView::SignalGenerator { .. } => CaptureDeviceKind::SignalGenerator,
        }
    }

    /// What a value writes beside its discriminant.
    pub open spec fn variant_slots(v: CaptureDeviceView) -> Seq<Slot> {
        match v {
            CaptureDeviceView::Alsa { channels, device, format, stop_on_inactive, link_volume_control, link_mute_control, labels } => Self::slots_alsa(channels, device, format, stop_on_inactive, link_volume_control, link_mute_control, labels),
            CaptureDeviceView::Bluez(p) => <CaptureDeviceBluez as Record>::slots(p),
            CaptureDeviceView::Pulse { channels, device, format, labels } => Self::slots_pulse(channels, device, format, labels),
            CaptureDeviceView::RawFile(p) => <CaptureDeviceRawFile as Record>::slots(p),
            CaptureDeviceView::WavFile(p) => <CaptureDeviceWavFile as Record>::slots(p),
            CaptureDeviceView::Stdin(p) => <CaptureDeviceStdin as Record>::slots(p),
            CaptureDeviceView::CoreAudio(p) => <CaptureDeviceCA as Record>::slots(p),
            CaptureDeviceView::Wasapi(p) => <CaptureDeviceWasapi as Record>::slots(p),
            CaptureDeviceView::Jack { channels, device, labels } => Self::slots_jack(channels, device, labels),
            CaptureDeviceView::SignalGenerator { channels, signal, labels } => Self::slots_signal_generator(channels, signal, labels),
        }
    }

    /// The value that entries stand for, read as the variant that `k` selects.
    pub open spec fn decode_variant(k: CaptureDeviceKind, m: Entries) -> Result<CaptureDeviceView, Fault> {
        match k {
            CaptureDeviceKind::Alsa => Self::decode_alsa(m),
            CaptureDeviceKind::Bluez => match <CaptureDeviceBluez as Record>::decode_fields(m) {
                Ok(p) => Ok(CaptureDeviceView::Bluez(p)),
                Err(e) => Err(e),
            },
            CaptureDeviceKind::Pulse => Self::decode_pulse(m),
            CaptureDeviceKind::RawFile => match <CaptureDeviceRawFile as Record>::decode_fields(m) {
                Ok(p) => Ok(CaptureDeviceView::RawFile(p)),
                Err(e) => Err(e),
            },
            CaptureDeviceKind::WavFile => match <CaptureDeviceWavFile as Record>::decode_fields(m) {
                Ok(p) => Ok(CaptureDeviceView::WavFile(p)),
                Err(e) => Err(e),
            },
            CaptureDeviceKind::Stdin => match <CaptureDeviceStdin as Record>::decode_fields(m) {
                Ok(p) => Ok(CaptureDeviceView::Stdin(p)),
                Err(e) => Err(e),
            },
            CaptureDeviceKind::CoreAudio => match <CaptureDeviceCA as Record>::decode_fields(m) {
                Ok(p) => Ok(CaptureDeviceView::CoreAudio(p)),
                Err(e) => Err(e),
            },
            CaptureDeviceKind::Wasapi => match <CaptureDeviceWasapi as Record>::decode_fields(m) {
                Ok(p) => Ok(CaptureDeviceView::Wasapi(p)),
                Err(e) => Err(e),
            },
            CaptureDeviceKind::Jack => Self::decode_jack(m),
            CaptureDeviceKind::SignalGenerator => Self::decode_signal_generator(m),
        }
    }
}

impl Schema for CaptureDevice {
    open spec fn decode(n: NodeView) -> Result<CaptureDeviceView, Fault> {
        decode_tagged(n, |k: CaptureDeviceKind, m: Entries| Self::decode_variant(k, m))
    }

    open spec fn encode(v: CaptureDeviceView) -> NodeView {
        tagged_node(Self::kind_of(v).name(), Self::variant_slots(v))
    }

    fn from_node(n: &Node) -> (r: Result<CaptureDevice, SchemaError>) {
        let f = Fields::of(n)?;
        let (k, rest) = f.tagged::<CaptureDeviceKind>()?;
        match k {
            CaptureDeviceKind::Alsa => Self::read_alsa(&rest),
            CaptureDeviceKind::Bluez => match <CaptureDeviceBluez as Record>::read_fields(&rest) {
                Ok(p) => Ok(CaptureDevice::Bluez(p)),
                Err(e) => Err(e),
            },
            CaptureDeviceKind::Pulse => Self::read_pulse(&rest),
            CaptureDeviceKind::RawFile => match <CaptureDeviceRawFile as Record>::read_fields(&rest) {
                Ok(p) => Ok(CaptureDevice::RawFile(p)),
                Err(e) => Err(e),
            },
            CaptureDeviceKind::WavFile => match <CaptureDeviceWavFile as Record>::read_fields(&rest) {
                Ok(p) => Ok(CaptureDevice::WavFile(p)),
                Err(e) => Err(e),
            },
            CaptureDeviceKind::Stdin => match <CaptureDeviceStdin as Record>::read_fields(&rest) {
                Ok(p) => Ok(CaptureDevice::Stdin(p)),
                Err(e) => Err(e),
            },
            CaptureDeviceKind::CoreAudio => match <CaptureDeviceCA as Record>::read_fields(&rest) {
                Ok(p) => Ok(CaptureDevice::CoreAudio(p)),
                Err(e) => Err(e),
            },
            CaptureDeviceKind::Wasapi => match <CaptureDeviceWasapi as Record>::read_fields(&rest) {
                Ok(p) => Ok(CaptureDevice::Wasapi(p)),
                Err(e) => Err(e),
            },
            CaptureDeviceKind::Jack => Self::read_jack(&rest),
            CaptureDeviceKind::SignalGenerator => Self::read_signal_generator(&rest),
        }
    }

    fn to_node(&self) -> (n: Node) {
        let ghost v = self.deep_view();
        let w = Writer::tagged(&self.kind());
        let w = match self {
            CaptureDevice::Alsa { channels, device, format, stop_on_inactive, link_volume_control, link_mute_control, labels } => Self::write_alsa(w, channels, device, format, stop_on_inactive, link_volume_control, link_mute_control, labels),
            CaptureDevice::Bluez(p) => p.write_fields(w),
            CaptureDevice::Pulse { channels, device, format, labels } => Self::write_pulse(w, channels, device, format, labels),
            CaptureDevice::RawFile(p) => p.write_fields(w),
            CaptureDevice::WavFile(p) => p.write_fields(w),
            CaptureDevice::Stdin(p) => p.write_fields(w),
            CaptureDevice::CoreAudio(p) => p.write_fields(w),
            CaptureDevice::Wasapi(p) => p.write_fields(w),
            CaptureDevice::Jack { channels, device, labels } => Self::write_jack(w, channels, device, labels),
            CaptureDevice::SignalGenerator { channels, signal, labels } => Self::write_signal_generator(w, channels, signal, labels),
        };
        w.finish()
    }

    proof fn lemma_round_trip(v: CaptureDeviceView) {
        Self::lemma_variant(v);
        lemma_tagged_round_trip(
            Self::kind_of(v),
            Self::variant_slots(v),
            |k: CaptureDeviceKind, m: Entries| Self::decode_variant(k, m),
        );
    }

    proof fn lemma_faithful(n: NodeView) {
        if is_record(n) {
            if let Ok(k) = tag_of::<CaptureDeviceKind>(entries(n)) {
                lemma_untagged_distinct::<CaptureDeviceKind>(n);
                Self::lemma_variant_like(k, untagged(entries(n)));
                if let Ok(v) = Self::decode_variant(k, untagged(entries(n))) {
                    Self::lemma_variant(v);
                    lemma_tagged_faithful(n, k, Self::variant_slots(v));
                }
            }
        }
    }
}

impl CaptureDevice {
    /// Reading what a value writes beside its discriminant, as the variant of
    /// the value, gives the value back; its slots have distinct names, none of
    /// them the key of the discriminant.
    pub proof fn lemma_variant(v: CaptureDeviceView)
        ensures
            distinct_names(Self::variant_slots(v)),
            !names_slot(Self::variant_slots(v), tag_key()),
            Self::decode_variant(Self::kind_of(v), present(Self::variant_slots(v))) == Ok::<CaptureDeviceView, Fault>(v),
    {
        match v {
            CaptureDeviceView::Alsa { channels, device, format, stop_on_inactive, link_volume_control, link_mute_control, labels } => {
                Self::lemma_alsa(channels, device, format, stop_on_inactive, link_volume_control, link_mute_control, labels);
            },
            CaptureDeviceView::Bluez(p) => {
                <CaptureDeviceBluez as Record>::lemma_fields(p);
            },
            CaptureDeviceView::Pulse { channels, device, format, labels } => {
                Self::lemma_pulse(channels, device, format, labels);
            },
            CaptureDeviceView::RawFile(p) => {
                <CaptureDeviceRawFile as Record>::lemma_fields(p);
            },
            CaptureDeviceView::WavFile(p) => {
                <CaptureDeviceWavFile as Record>::lemma_fields(p);
            },
            CaptureDeviceView::Stdin(p) => {
                <CaptureDeviceStdin as Record>::lemma_fields(p);
            },
            CaptureDeviceView::CoreAudio(p) => {
                <CaptureDeviceCA as Record>::lemma_fields(p);
            },
            CaptureDeviceView::Wasapi(p) => {
                <CaptureDeviceWasapi as Record>::lemma_fields(p);
            },
            CaptureDeviceView::Jack { channels, device, labels } => {
                Self::lemma_jack(channels, device, labels);
            },
            CaptureDeviceView::SignalGenerator { channels, signal, labels } => {
                Self::lemma_signal_generator(channels, signal, labels);
            },
        }
    }

    /// Two mappings that differ only in the spelling of the discriminant, where
    /// both spellings select the same variant, stand for the same value.
    pub proof fn lemma_spelling(m: Entries, i: int, s1: Seq<char>, s2: Seq<char>)
        requires
            distinct_keys(m),
            0 <= i < m.len(),
            m[i].0 == tag_key(),
            CaptureDeviceKind::named(s1) == CaptureDeviceKind::named(s2),
        ensures
            Self::decode(record_node(m.update(i, (tag_key(), NodeView::String(s1))))) == Self::decode(
                record_node(m.update(i, (tag_key(), NodeView::String(s2)))),
            ),
    {
        lemma_spelling(m, i, s1, s2, |k: CaptureDeviceKind, m: Entries| Self::decode_variant(k, m));
    }

    /// What a value writes beside its discriminant is like any entries that
    /// the value was read from as the variant that `k` selects; and the value
    /// is of that variant.
    pub proof fn lemma_variant_like(k: CaptureDeviceKind, m: Entries)
        requires
            distinct_keys(m),
        ensures
            Self::decode_variant(k, m) matches Ok(v) ==> Self::kind_of(v) == k && alike_entries(
                m,
                present(Self::variant_slots(v)),
            ),
    {
        match k {
            CaptureDeviceKind::Alsa => {
                Self::lemma_like_alsa(m);
            },
            CaptureDeviceKind::Bluez => {
                <CaptureDeviceBluez as Record>::lemma_fields_faithful(m);
            },
            CaptureDeviceKind::Pulse => {
                Self::lemma_like_pulse(m);
            },
            CaptureDeviceKind::RawFile => {
                <CaptureDeviceRawFile as Record>::lemma_fields_faithful(m);
            },
            CaptureDeviceKind::WavFile => {
                <CaptureDeviceWavFile as Record>::lemma_fields_faithful(m);
            },
            CaptureDeviceKind::Stdin => {
                <CaptureDeviceStdin as Record>::lemma_fields_faithful(m);
            },
            CaptureDeviceKind::CoreAudio => {
                <CaptureDeviceCA as Record>::lemma_fields_faithful(m);
            },
            CaptureDeviceKind::Wasapi => {
                <CaptureDeviceWasapi as Record>::lemma_fields_faithful(m);
            },
            CaptureDeviceKind::Jack => {
                Self::lemma_like_jack(m);
            },
            CaptureDeviceKind::SignalGenerator => {
                Self::lemma_like_signal_generator(m);
            },
        }
    }

    /// The discriminant of the value.
    pub fn kind(&self) -> (k: CaptureDeviceKind)
        ensures
            k == Self::kind_of(self.deep_view()),
    {
        match self {
            CaptureDevice::Alsa { .. } => CaptureDeviceKind::Alsa,
            CaptureDevice::Bluez(_) => CaptureDeviceKind::Bluez,
            CaptureDevice::Pulse { .. } => CaptureDeviceKind::Pulse,
            CaptureDevice::RawFile(_) => CaptureDeviceKind::RawFile,
            CaptureDevice::WavFile(_) => CaptureDeviceKind::WavFile,
            CaptureDevice::Stdin(_) => CaptureDeviceKind::Stdin,
            CaptureDevice::CoreAudio(_) => CaptureDeviceKind::CoreAudio,
            CaptureDevice::Wasapi(_) => CaptureDeviceKind::Wasapi,
            CaptureDevice::Jack { .. } => CaptureDeviceKind::Jack,
            CaptureDevice::SignalGenerator { .. } => CaptureDeviceKind::SignalGenerator,
        }
    }
}

/// Playback on a WASAPI device.
#[derive(Clone, Debug, PartialEq, Eq)]
pub struct PlaybackDeviceWasapi {
    pub channels: usize,
    pub device: Option<String>,
    pub format: SampleFormat,
    pub exclusive: Option<bool>,
}

/// The mathematical value of a [`PlaybackDeviceWasapi`].
pub struct PlaybackDeviceWasapiView {
    pub channels: usize,
    pub device: Option<Seq<char>>,
    pub format: SampleFormat,
    pub exclusive: Option<bool>,
}

impl DeepView for PlaybackDeviceWasapi {
    type V = PlaybackDeviceWasapiView;

    open spec fn deep_view(&self) -> PlaybackDeviceWasapiView {
        PlaybackDeviceWasapiView {
            channels: self.channels.deep_view(),
            device: self.device.deep_view(),
            format: self.format.deep_view(),
            exclusive: self.exclusive.deep_view(),
        }
    }
}

impl PlaybackDeviceWasapi {
    /// The keys that the record declares.
    pub open spec fn names() -> Seq<Seq<char>> {
        seq!["channels"@, "device"@, "format"@, "exclusive"@]
    }

    /// The keys of the record are distinct, and none is the key of a discriminant.
    pub proof fn lemma_names()
        ensures
            Self::names().no_duplicates(),
            !Self::names().contains(tag_key()),
    {
        reveal_strlit("type");
        reveal_strlit("channels");
        reveal_strlit("device");
        reveal_strlit("format");
        reveal_strlit("exclusive");
        assert("type"@.len() == 4);
        assert("channels"@.len() == 8);
        assert("device"@.len() == 6 && "device"@[0] == 'd');
        assert("format"@.len() == 6 && "format"@[0] == 'f');
        assert("exclusive"@.len() == 9);
    }
}

impl Record for PlaybackDeviceWasapi {
    open spec fn slots(v: PlaybackDeviceWasapiView) -> Seq<Slot> {
        seq![
            slot::<usize>("channels"@, v.channels),
            slot_opt::<String>("device"@, v.device),
            slot::<SampleFormat>("format"@, v.format),
            slot_opt::<bool>("exclusive"@, v.exclusive),
        ]
    }

    open spec fn decode_fields(m: Entries) -> Result<PlaybackDeviceWasapiView, Fault> {
        let channels = required::<usize>(m, "channels"@);
        let device = optional::<String>(m, "device"@);
        let format = required::<SampleFormat>(m, "format"@);
        let exclusive = optional::<bool>(m, "exclusive"@);
        if let Some(e) = unknown_field(m, Self::names()) {
            Err(e)
        } else if channels is Err {
            Err(channels->Err_0)
        } else if device is Err {
            Err(device->Err_0)
        } else if format is Err {
            Err(format->Err_0)
        } else if exclusive is Err {
            Err(exclusive->Err_0)
        } else {
            Ok(
                PlaybackDeviceWasapiView {
                    channels: channels->Ok_0,
                    device: device->Ok_0,
                    format: format->Ok_0,
                    exclusive: exclusive->Ok_0,
                },
            )
        }
    }

    fn read_fields(f: &Fields) -> (r: Result<PlaybackDeviceWasapi, SchemaError>) {
        let known = vec!["channels", "device", "format", "exclusive"];
        proof {
            assert(texts(known@) =~= Self::names());
        }
        f.deny_unknown(&known)?;
        let channels = f.required::<usize>("channels")?;
        let device = f.optional::<String>("device")?;
        let format = f.required::<SampleFormat>("format")?;
        let exclusive = f.optional::<bool>("exclusive")?;
        Ok(PlaybackDeviceWasapi { channels, device, format, exclusive })
    }

    fn write_fields(&self, w: Writer) -> (r: Writer) {
        let ghost before = w.slots();
        let w = w.put::<usize>("channels", &self.channels);
        let w = w.put_opt::<String>("device", &self.device);
        let w = w.put::<SampleFormat>("format", &self.format);
        let w = w.put_opt::<bool>("exclusive", &self.exclusive);
        proof {
            assert(w.slots() =~= before + Self::slots(self.deep_view()));
        }
        w
    }

    proof fn lemma_fields(v: PlaybackDeviceWasapiView) {
        Self::lemma_names();
        let s = Self::slots(v);
        lemma_slot_names(s, Self::names());
        lemma_present_known(s, Self::names());
        lemma_required::<usize>(s, 0, "channels"@, v.channels);
        lemma_optional::<String>(s, 1, "device"@, v.device);
        lemma_required::<SampleFormat>(s, 2, "format"@, v.format);
        lemma_optional::<bool>(s, 3, "exclusive"@, v.exclusive);
    }

    proof fn lemma_fields_faithful(m: Entries) {
        if let Ok(v) = Self::decode_fields(m) {
            Self::lemma_names();
            lemma_unknown_field(m, Self::names());
            let s = lemma_matched_none(m);
            let s = lemma_matched_required::<usize>(m, s, "channels"@, v.channels);
            let s = lemma_matched_optional::<String>(m, s, "device"@, v.device);
            let s = lemma_matched_required::<SampleFormat>(m, s, "format"@, v.format);
            let s = lemma_matched_optional::<bool>(m, s, "exclusive"@, v.exclusive);
            assert(s =~= Self::slots(v));
            lemma_slot_names(s, Self::names());
            lemma_alike_slots(m, s, Self::names());
        }
    }
}

/// Playback on a CoreAudio device.
#[derive(Clone, Debug, PartialEq, Eq)]
pub struct PlaybackDeviceCA {
    pub channels: usize,
    pub device: Option<String>,
    pub format: Option<SampleFormat>,
    pub exclusive: Option<bool>,
}

/// The mathematical value of a [`PlaybackDeviceCA`].
pub struct PlaybackDeviceCAView {
    pub channels: usize,
    pub device: Option<Seq<char>>,
    pub format: Option<SampleFormat>,
    pub exclusive: Option<bool>,
}

impl DeepView for PlaybackDeviceCA {
    type V = PlaybackDeviceCAView;

    open spec fn deep_view(&self) -> PlaybackDeviceCAView {
        PlaybackDeviceCAView {
            channels: self.channels.deep_view(),
            device: self.device.deep_view(),
            format: self.format.deep_view(),
            exclusive: self.exclusive.deep_view(),
        }
    }
}

impl PlaybackDeviceCA {
    /// The keys that the record declares.
    pub open spec fn names() -> Seq<Seq<char>> {
        seq!["channels"@, "device"@, "format"@, "exclusive"@]
    }

    /// The keys of the record are distinct, and none is the key of a discriminant.
    pub proof fn lemma_names()
        ensures
            Self::names().no_duplicates(),
            !Self::names().contains(tag_key()),
    {
        reveal_strlit("type");
        reveal_strlit("channels");
        reveal_strlit("device");
        reveal_strlit("format");
        reveal_strlit("exclusive");
        assert("type"@.len() == 4);
        assert("channels"@.len() == 8);
        assert("device"@.len() == 6 && "device"@[0] == 'd');
        assert("format"@.len() == 6 && "format"@[0] == 'f');
        assert("exclusive"@.len() == 9);
    }
}

impl Record for PlaybackDeviceCA {
    open spec fn slots(v: PlaybackDeviceCAView) -> Seq<Slot> {
        seq![
            slot::<usize>("channels"@, v.channels),
            slot_opt::<String>("device"@, v.device),
            slot_opt::<SampleFormat>("format"@, v.format),
            slot_opt::<bool>("exclusive"@, v.exclusive),
        ]
    }

    open spec fn decode_fields(m: Entries) -> Result<PlaybackDeviceCAView, Fault> {
        let channels = required::<usize>(m, "channels"@);
        let device = optional::<String>(m, "device"@);
        let format = optional::<SampleFormat>(m, "format"@);
        let exclusive = optional::<bool>(m, "exclusive"@);
        if let Some(e) = unknown_field(m, Self::names()) {
            Err(e)
        } else if channels is Err {
            Err(channels->Err_0)
        } else if device is Err {
            Err(device->Err_0)
        } else if format is Err {
            Err(format->Err_0)
        } else if exclusive is Err {
            Err(exclusive->Err_0)
        } else {
            Ok(
                PlaybackDeviceCAView {
                    channels: channels->Ok_0,
                    device: device->Ok_0,
                    format: format->Ok_0,
                    exclusive: exclusive->Ok_0,
                },
            )
        }
    }

    fn read_fields(f: &Fields) -> (r: Result<PlaybackDeviceCA, SchemaError>) {
        let known = vec!["channels", "device", "format", "exclusive"];
        proof {
            assert(texts(known@) =~= Self::names());
        }
        f.deny_unknown(&known)?;
        let channels = f.required::<usize>("channels")?;
        let device = f.optional::<String>("device")?;
        let format = f.optional::<SampleFormat>("format")?;
        let exclusive = f.optional::<bool>("exclusive")?;
        Ok(PlaybackDeviceCA { channels, device, format, exclusive })
    }

    fn write_fields(&self, w: Writer) -> (r: Writer) {
        let ghost before = w.slots();
        let w = w.put::<usize>("channels", &self.channels);
        let w = w.put_opt::<String>("device", &self.device);
        let w = w.put_opt::<SampleFormat>("format", &self.format);
        let w = w.put_opt::<bool>("exclusive", &self.exclusive);
        proof {
            assert(w.slots() =~= before + Self::slots(self.deep_view()));
        }
        w
    }

    proof fn lemma_fields(v: PlaybackDeviceCAView) {
        Self::lemma_names();
        let s = Self::slots(v);
        lemma_slot_names(s, Self::names());
        lemma_present_known(s, Self::names());
        lemma_required::<usize>(s, 0, "channels"@, v.channels);
        lemma_optional::<String>(s, 1, "device"@, v.device);
        lemma_optional::<SampleFormat>(s, 2, "format"@, v.format);
        lemma_optional::<bool>(s, 3, "exclusive"@, v.exclusive);
    }

    proof fn lemma_fields_faithful(m: Entries) {
        if let Ok(v) = Self::decode_fields(m) {
            Self::lemma_names();
            lemma_unknown_field(m, Self::names());
            let s = lemma_matched_none(m);
            let s = lemma_matched_required::<usize>(m, s, "channels"@, v.channels);
            let s = lemma_matched_optional::<String>(m, s, "device"@, v.device);
            let s = lemma_matched_optional::<SampleFormat>(m, s, "format"@, v.format);
            let s = lemma_matched_optional::<bool>(m, s, "exclusive"@, v.exclusive);
            assert(s =~= Self::slots(v));
            lemma_slot_names(s, Self::names());
            lemma_alike_slots(m, s, Self::names());
        }
    }
}

/// Where the samples go.
#[derive(Clone, Debug, PartialEq, Eq)]
pub enum PlaybackDevice {
    Alsa { channels: usize, device: String, format: Option<SampleFormat> },
    Pulse { channels: usize, device: String, format: SampleFormat },
    File { channels: usize, filename: String, format: SampleFormat, wav_header: Option<bool> },
    Stdout { channels: usize, format: SampleFormat, wav_header: Option<bool> },
    CoreAudio(PlaybackDeviceCA),
    Wasapi(PlaybackDeviceWasapi),
    Jack { channels: usize, device: String },
}

/// The mathematical value of a [`PlaybackDevice`].
pub enum PlaybackDeviceView {
    Alsa { channels: usize, device: Seq<char>, format: Option<SampleFormat> },
    Pulse { channels: usize, device: Seq<char>, format: SampleFormat },
    File { channels: usize, filename: Seq<char>, format: SampleFormat, wav_header: Option<bool> },
    Stdout { channels: usize, format: SampleFormat, wav_header: Option<bool> },
    CoreAudio(PlaybackDeviceCAView),
    Wasapi(PlaybackDeviceWasapiView),
    Jack { channels: usize, device: Seq<char> },
}

/// The discriminants of [`PlaybackDevice`].
#[derive(Clone, Copy, Debug, PartialEq, Eq)]
pub enum PlaybackDeviceKind {
    /// Also read as `ALSA` and `alsa`.
    Alsa,
    /// Also read as `PULSE` and `pulse`.
    Pulse,
    /// Also read as `FILE` and `file`.
    File,
    /// Also read as `STDOUT` and `stdout`.
    Stdout,
    /// Also read as `COREAUDIO` and `coreaudio`.
    CoreAudio,
    /// Also read as `WASAPI` and `wasapi`.
    Wasapi,
    /// Also read as `JACK` and `jack`.
    Jack,
}

impl Spelled for PlaybackDeviceKind {
    open spec fn name(self) -> Seq<char> {
        match self {
            PlaybackDeviceKind::Alsa => "Alsa"@,
            PlaybackDeviceKind::Pulse => "Pulse"@,
            PlaybackDeviceKind::File => "File"@,
            PlaybackDeviceKind::Stdout => "Stdout"@,
            PlaybackDeviceKind::CoreAudio => "CoreAudio"@,
            PlaybackDeviceKind::Wasapi => "Wasapi"@,
            PlaybackDeviceKind::Jack => "Jack"@,
        }
    }

    open spec fn named(t: Seq<char>) -> Option<PlaybackDeviceKind> {
        if t == "Alsa"@ || t == "ALSA"@ || t == "alsa"@ {
            Some(PlaybackDeviceKind::Alsa)
        } else if t == "Pulse"@ || t == "PULSE"@ || t == "pulse"@ {
            Some(PlaybackDeviceKind::Pulse)
        } else if t == "File"@ || t == "FILE"@ || t == "file"@ {
            Some(PlaybackDeviceKind::File)
        } else if t == "Stdout"@ || t == "STDOUT"@ || t == "stdout"@ {
            Some(PlaybackDeviceKind::Stdout)
        } else if t == "CoreAudio"@ || t == "COREAUDIO"@ || t == "coreaudio"@ {
            Some(PlaybackDeviceKind::CoreAudio)
        } else if t == "Wasapi"@ || t == "WASAPI"@ || t == "wasapi"@ {
            Some(PlaybackDeviceKind::Wasapi)
        } else if t == "Jack"@ || t == "JACK"@ || t == "jack"@ {
            Some(PlaybackDeviceKind::Jack)
        } else {
            None
        }
    }

    fn as_str(&self) -> (r: &'static str) {
        match self {
            PlaybackDeviceKind::Alsa => "Alsa",
            PlaybackDeviceKind::Pulse => "Pulse",
            PlaybackDeviceKind::File => "File",
            PlaybackDeviceKind::Stdout => "Stdout",
            PlaybackDeviceKind::CoreAudio => "CoreAudio",
            PlaybackDeviceKind::Wasapi => "Wasapi",
            PlaybackDeviceKind::Jack => "Jack",
        }
    }

    fn from_name(t: &str) -> (r: Option<PlaybackDeviceKind>) {
        if same_text(t, "Alsa") || same_text(t, "ALSA") || same_text(t, "alsa") {
            Some(PlaybackDeviceKind::Alsa)
        } else if same_text(t, "Pulse") || same_text(t, "PULSE") || same_text(t, "pulse") {
            Some(PlaybackDeviceKind::Pulse)
        } else if same_text(t, "File") || same_text(t, "FILE") || same_text(t, "file") {
            Some(PlaybackDeviceKind::File)
        } else if same_text(t, "Stdout") || same_text(t, "STDOUT") || same_text(t, "stdout") {
            Some(PlaybackDeviceKind::Stdout)
        } else if same_text(t, "CoreAudio") || same_text(t, "COREAUDIO") || same_text(t, "coreaudio") {
            Some(PlaybackDeviceKind::CoreAudio)
        } else if same_text(t, "Wasapi") || same_text(t, "WASAPI") || same_text(t, "wasapi") {
            Some(PlaybackDeviceKind::Wasapi)
        } else if same_text(t, "Jack") || same_text(t, "JACK") || same_text(t, "jack") {
            Some(PlaybackDeviceKind::Jack)
        } else {
            None
        }
    }

    proof fn lemma_named(self) {
        reveal_strlit("Alsa");
        reveal_strlit("ALSA");
        reveal_strlit("alsa");
        reveal_strlit("Pulse");
        reveal_strlit("PULSE");
        reveal_strlit("pulse");
        reveal_strlit("File");
        reveal_strlit("FILE");
        reveal_strlit("file");
        reveal_strlit("Stdout");
        reveal_strlit("STDOUT");
        reveal_strlit("stdout");
        reveal_strlit("CoreAudio");
        reveal_strlit("COREAUDIO");
        reveal_strlit("coreaudio");
        reveal_strlit("Wasapi");
        reveal_strlit("WASAPI");
        reveal_strlit("wasapi");
        reveal_strlit("Jack");
        reveal_strlit("JACK");
        reveal_strlit("jack");
        assert("Alsa"@.len() == 4 && "Alsa"@[0] == 'A' && "Alsa"@[1] == 'l');
        assert("ALSA"@.len() == 4 && "ALSA"@[0] == 'A' && "ALSA"@[1] == 'L');
        assert("alsa"@.len() == 4 && "alsa"@[0] == 'a');
        assert("Pulse"@.len() == 5 && "Pulse"@[0] == 'P' && "Pulse"@[1] == 'u');
        assert("PULSE"@.len() == 5 && "PULSE"@[0] == 'P' && "PULSE"@[1] == 'U');
        assert("pulse"@.len() == 5 && "pulse"@[0] == 'p');
        assert("File"@.len() == 4 && "File"@[0] == 'F' && "File"@[1] == 'i');
        assert("FILE"@.len() == 4 && "FILE"@[0] == 'F' && "FILE"@[1] == 'I');
        assert("file"@.len() == 4 && "file"@[0] == 'f');
        assert("Stdout"@.len() == 6 && "Stdout"@[0] == 'S' && "Stdout"@[1] == 't');
        assert("STDOUT"@.len() == 6 && "STDOUT"@[0] == 'S' && "STDOUT"@[1] == 'T');
        assert("stdout"@.len() == 6 && "stdout"@[0] == 's');
        assert("CoreAudio"@.len() == 9 && "CoreAudio"@[0] == 'C' && "CoreAudio"@[1] == 'o');
        assert("COREAUDIO"@.len() == 9 && "COREAUDIO"@[0] == 'C' && "COREAUDIO"@[1] == 'O');
        assert("coreaudio"@.len() == 9 && "coreaudio"@[0] == 'c');
        assert("Wasapi"@.len() == 6 && "Wasapi"@[0] == 'W' && "Wasapi"@[1] == 'a');
        assert("WASAPI"@.len() == 6 && "WASAPI"@[0] == 'W' && "WASAPI"@[1] == 'A');
        assert("wasapi"@.len() == 6 && "wasapi"@[0] == 'w');
        assert("Jack"@.len() == 4 && "Jack"@[0] == 'J' && "Jack"@[1] == 'a');
        assert("JACK"@.len() == 4 && "JACK"@[0] == 'J' && "JACK"@[1] == 'A');
        assert("jack"@.len() == 4 && "jack"@[0] == 'j');
    }
}

impl PlaybackDeviceKind {
    /// Each spelling that is read selects its discriminant: the one that is
    /// written, and the same in capitals and in small letters where those are
    /// read too.
    pub proof fn lemma_spellings()
        ensures
            Self::named("Alsa"@) == Some(PlaybackDeviceKind::Alsa),
            Self::named("ALSA"@) == Some(PlaybackDeviceKind::Alsa),
            Self::named("alsa"@) == Some(PlaybackDeviceKind::Alsa),
            Self::named("Pulse"@) == Some(PlaybackDeviceKind::Pulse),
            Self::named("PULSE"@) == Some(PlaybackDeviceKind::Pulse),
            Self::named("pulse"@) == Some(PlaybackDeviceKind::Pulse),
            Self::named("File"@) == Some(PlaybackDeviceKind::File),
            Self::named("FILE"@) == Some(PlaybackDeviceKind::File),
            Self::named("file"@) == Some(PlaybackDeviceKind::File),
            Self::named("Stdout"@) == Some(PlaybackDeviceKind::Stdout),
            Self::named("STDOUT"@) == Some(PlaybackDeviceKind::Stdout),
            Self::named("stdout"@) == Some(PlaybackDeviceKind::Stdout),
            Self::named("CoreAudio"@) == Some(PlaybackDeviceKind::CoreAudio),
            Self::named("COREAUDIO"@) == Some(PlaybackDeviceKind::CoreAudio),
            Self::named("coreaudio"@) == Some(PlaybackDeviceKind::CoreAudio),
            Self::named("Wasapi"@) == Some(PlaybackDeviceKind::Wasapi),
            Self::named("WASAPI"@) == Some(PlaybackDeviceKind::Wasapi),
            Self::named("wasapi"@) == Some(PlaybackDeviceKind::Wasapi),
            Self::named("Jack"@) == Some(PlaybackDeviceKind::Jack),
            Self::named("JACK"@) == Some(PlaybackDeviceKind::Jack),
            Self::named("jack"@) == Some(PlaybackDeviceKind::Jack),
    {
        reveal_strlit("Alsa");
        reveal_strlit("ALSA");
        reveal_strlit("alsa");
        reveal_strlit("Pulse");
        reveal_strlit("PULSE");
        reveal_strlit("pulse");
        reveal_strlit("File");
        reveal_strlit("FILE");
        reveal_strlit("file");
        reveal_strlit("Stdout");
        reveal_strlit("STDOUT");
        reveal_strlit("stdout");
        reveal_strlit("CoreAudio");
        reveal_strlit("COREAUDIO");
        reveal_strlit("coreaudio");
        reveal_strlit("Wasapi");
        reveal_strlit("WASAPI");
        reveal_strlit("wasapi");
        reveal_strlit("Jack");
        reveal_strlit("JACK");
        reveal_strlit("jack");
        assert("Alsa"@.len() == 4 && "Alsa"@[0] == 'A' && "Alsa"@[1] == 'l');
        assert("ALSA"@.len() == 4 && "ALSA"@[0] == 'A' && "ALSA"@[1] == 'L');
        assert("alsa"@.len() == 4 && "alsa"@[0] == 'a');
        assert("Pulse"@.len() == 5 && "Pulse"@[0] == 'P' && "Pulse"@[1] == 'u');
        assert("PULSE"@.len() == 5 && "PULSE"@[0] == 'P' && "PULSE"@[1] == 'U');
        assert("pulse"@.len() == 5 && "pulse"@[0] == 'p');
        assert("File"@.len() == 4 && "File"@[0] == 'F' && "File"@[1] == 'i');
        assert("FILE"@.len() == 4 && "FILE"@[0] == 'F' && "FILE"@[1] == 'I');
        assert("file"@.len() == 4 && "file"@[0] == 'f');
        assert("Stdout"@.len() == 6 && "Stdout"@[0] == 'S' && "Stdout"@[1] == 't');
        assert("STDOUT"@.len() == 6 && "STDOUT"@[0] == 'S' && "STDOUT"@[1] == 'T');
        assert("stdout"@.len() == 6 && "stdout"@[0] == 's');
        assert("CoreAudio"@.len() == 9 && "CoreAudio"@[0] == 'C' && "CoreAudio"@[1] == 'o');
        assert("COREAUDIO"@.len() == 9 && "COREAUDIO"@[0] == 'C' && "COREAUDIO"@[1] == 'O');
        assert("coreaudio"@.len() == 9 && "coreaudio"@[0] == 'c');
        assert("Wasapi"@.len() == 6 && "Wasapi"@[0] == 'W' && "Wasapi"@[1] == 'a');
        assert("WASAPI"@.len() == 6 && "WASAPI"@[0] == 'W' && "WASAPI"@[1] == 'A');
        assert("wasapi"@.len() == 6 && "wasapi"@[0] == 'w');
        assert("Jack"@.len() == 4 && "Jack"@[0] == 'J' && "Jack"@[1] == 'a');
        assert("JACK"@.len() == 4 && "JACK"@[0] == 'J' && "JACK"@[1] == 'A');
        assert("jack"@.len() == 4 && "jack"@[0] == 'j');
    }
}

impl DeepView for PlaybackDevice {
    type V = PlaybackDeviceView;

    open spec fn deep_view(&self) -> PlaybackDeviceView {
        match self {
            PlaybackDevice::Alsa { channels, device, format } => PlaybackDeviceView::Alsa {
                channels: channels.deep_view(),
                device: device.deep_view(),
                format: format.deep_view(),
            },
            PlaybackDevice::Pulse { channels, device, format } => PlaybackDeviceView::Pulse {
                channels: channels.deep_view(),
                device: device.deep_view(),
                format: format.deep_view(),
            },
            PlaybackDevice::File { channels, filename, format, wav_header } => PlaybackDeviceView::File {
                channels: channels.deep_view(),
                filename: filename.deep_view(),
                format: format.deep_view(),
                wav_header: wav_header.deep_view(),
            },
            PlaybackDevice::Stdout { channels, format, wav_header } => PlaybackDeviceView::Stdout {
                channels: channels.deep_view(),
                format: format.deep_view(),
                wav_header: wav_header.deep_view(),
            },
            PlaybackDevice::CoreAudio(p) => PlaybackDeviceView::CoreAudio(p.deep_view()),
            PlaybackDevice::Wasapi(p) => PlaybackDeviceView::Wasapi(p.deep_view()),
            PlaybackDevice::Jack { channels, device } => PlaybackDeviceView::Jack {
                channels: channels.deep_view(),
                device: device.deep_view(),
            },
        }
    }
}

impl PlaybackDevice {
    /// The keys that the variant `Alsa` declares.
    pub open spec fn names_alsa() -> Seq<Seq<char>> {
        seq!["channels"@, "device"@, "format"@]
    }

    /// The keys of the variant `Alsa` are distinct, and none is the key of a discriminant.
    pub proof fn lemma_names_alsa()
        ensures
            Self::names_alsa().no_duplicates(),
            !Self::names_alsa().contains(tag_key()),
    {
        reveal_strlit("type");
        reveal_strlit("channels");
        reveal_strlit("device");
        reveal_strlit("format");
        assert("type"@.len() == 4);
        assert("channels"@.len() == 8);
        assert("device"@.len() == 6 && "device"@[0] == 'd');
        assert("format"@.len() == 6 && "format"@[0] == 'f');
    }

    /// What the variant `Alsa` writes: one slot for each field.
    pub open spec fn slots_alsa(channels: usize, device: Seq<char>, format: Option<SampleFormat>) -> Seq<Slot> {
        seq![
            slot::<usize>("channels"@, channels),
            slot::<String>("device"@, device),
            slot_opt::<SampleFormat>("format"@, format),
        ]
    }

    /// What entries stand for, read as the variant `Alsa`.
    pub open spec fn decode_alsa(m: Entries) -> Result<PlaybackDeviceView, Fault> {
        let channels = required::<usize>(m, "channels"@);
        let device = required::<String>(m, "device"@);
        let format = optional::<SampleFormat>(m, "format"@);
        if let Some(e) = unknown_field(m, Self::names_alsa()) {
            Err(e)
        } else if channels is Err {
            Err(channels->Err_0)
        } else if device is Err {
            Err(device->Err_0)
        } else if format is Err {
            Err(format->Err_0)
        } else {
            Ok(
                PlaybackDeviceView::Alsa {
                    channels: channels->Ok_0,
                    device: device->Ok_0,
                    format: format->Ok_0,
                },
            )
        }
    }

    /// Reads the variant `Alsa`.
    pub fn read_alsa(f: &Fields) -> (r: Result<PlaybackDevice, SchemaError>)
        ensures
            r matches Ok(x) ==> Self::decode_alsa(f@) == Ok::<PlaybackDeviceView, Fault>(x.deep_view()),
            r matches Err(e) ==> Self::decode_alsa(f@) == Err::<PlaybackDeviceView, Fault>(e.deep_view()),
    {
        let known = vec!["channels", "device", "format"];
        proof {
            assert(texts(known@) =~= Self::names_alsa());
        }
        f.deny_unknown(&known)?;
        let channels = f.required::<usize>("channels")?;
        let device = f.required::<String>("device")?;
        let format = f.optional::<SampleFormat>("format")?;
        Ok(PlaybackDevice::Alsa { channels, device, format })
    }

    /// Writes the fields of the variant `Alsa` after what `w` holds.
    pub fn write_alsa(w: Writer, channels: &usize, device: &String, format: &Option<SampleFormat>) -> (r: Writer)
        ensures
            r.slots() == w.slots() + Self::slots_alsa(channels.deep_view(), device.deep_view(), format.deep_view()),
    {
        let ghost before = w.slots();
        let w = w.put::<usize>("channels", channels);
        let w = w.put::<String>("device", device);
        let w = w.put_opt::<SampleFormat>("format", format);
        proof {
            assert(w.slots() =~= before + Self::slots_alsa(channels.deep_view(), device.deep_view(), format.deep_view()));
        }
        w
    }

    /// Reading what the variant `Alsa` wrote gives the fields back.
    pub proof fn lemma_alsa(channels: usize, device: Seq<char>, format: Option<SampleFormat>)
        ensures
            distinct_names(Self::slots_alsa(channels, device, format)),
            !names_slot(Self::slots_alsa(channels, device, format), tag_key()),
            Self::decode_alsa(present(Self::slots_alsa(channels, device, format))) == Ok::<PlaybackDeviceView, Fault>(
                PlaybackDeviceView::Alsa { channels: channels, device: device, format: format },
            ),
    {
        Self::lemma_names_alsa();
        let s = Self::slots_alsa(channels, device, format);
        lemma_slot_names(s, Self::names_alsa());
        lemma_present_known(s, Self::names_alsa());
        lemma_required::<usize>(s, 0, "channels"@, channels);
        lemma_required::<String>(s, 1, "device"@, device);
        lemma_optional::<SampleFormat>(s, 2, "format"@, format);
    }

    /// What the variant `Alsa` writes is like any entries that its fields were read from.
    pub proof fn lemma_like_alsa(m: Entries)
        requires
            distinct_keys(m),
        ensures
            Self::decode_alsa(m) matches Ok(PlaybackDeviceView::Alsa { channels, device, format }) ==> alike_entries(
                m,
                present(Self::slots_alsa(channels, device, format)),
            ),
    {
        if let Ok(PlaybackDeviceView::Alsa { channels, device, format }) = Self::decode_alsa(m) {
            Self::lemma_names_alsa();
            lemma_unknown_field(m, Self::names_alsa());
            let s = lemma_matched_none(m);
            let s = lemma_matched_required::<usize>(m, s, "channels"@, channels);
            let s = lemma_matched_required::<String>(m, s, "device"@, device);
            let s = lemma_matched_optional::<SampleFormat>(m, s, "format"@, format);
            assert(s =~= Self::slots_alsa(channels, device, format));
            lemma_slot_names(s, Self::names_alsa());
            lemma_alike_slots(m, s, Self::names_alsa());
        }
    }

    /// The keys that the variant `Pulse` declares.
    pub open spec fn names_pulse() -> Seq<Seq<char>> {
        seq!["channels"@, "device"@, "format"@]
    }

    /// The keys of the variant `Pulse` are distinct, and none is the key of a discriminant.
    pub proof fn lemma_names_pulse()
        ensures
            Self::names_pulse().no_duplicates(),
            !Self::names_pulse().contains(tag_key()),
    {
        reveal_strlit("type");
        reveal_strlit("channels");
        reveal_strlit("device");
        reveal_strlit("format");
        assert("type"@.len() == 4);
        assert("channels"@.len() == 8);
        assert("device"@.len() == 6 && "device"@[0] == 'd');
        assert("format"@.len() == 6 && "format"@[0] == 'f');
    }

    /// What the variant `Pulse` writes: one slot for each field.
    pub open spec fn slots_pulse(channels: usize, device: Seq<char>, format: SampleFormat) -> Seq<Slot> {
        seq![
            slot::<usize>("channels"@, channels),
            slot::<String>("device"@, device),
            slot::<SampleFormat>("format"@, format),
        ]
    }

    /// What entries stand for, read as the variant `Pulse`.
    pub open spec fn decode_pulse(m: Entries) -> Result<PlaybackDeviceView, Fault> {
        let channels = required::<usize>(m, "channels"@);
        let device = required::<String>(m, "device"@);
        let format = required::<SampleFormat>(m, "format"@);
        if let Some(e) = unknown_field(m, Self::names_pulse()) {
            Err(e)
        } else if channels is Err {
            Err(channels->Err_0)
        } else if device is Err {
            Err(device->Err_0)
        } else if format is Err {
            Err(format->Err_0)
        } else {
            Ok(
                PlaybackDeviceView::Pulse {
                    channels: channels->Ok_0,
                    device: device->Ok_0,
                    format: format->Ok_0,
                },
            )
        }
    }

    /// Reads the variant `Pulse`.
    pub fn read_pulse(f: &Fields) -> (r: Result<PlaybackDevice, SchemaError>)
        ensures
            r matches Ok(x) ==> Self::decode_pulse(f@) == Ok::<PlaybackDeviceView, Fault>(x.deep_view()),
            r matches Err(e) ==> Self::decode_pulse(f@) == Err::<PlaybackDeviceView, Fault>(e.deep_view()),
    {
        let known = vec!["channels", "device", "format"];
        proof {
            assert(texts(known@) =~= Self::names_pulse());
        }
        f.deny_unknown(&known)?;
        let channels = f.required::<usize>("channels")?;
        let device = f.required::<String>("device")?;
        let format = f.required::<SampleFormat>("format")?;
        Ok(PlaybackDevice::Pulse { channels, device, format })
    }

    /// Writes the fields of the variant `Pulse` after what `w` holds.
    pub fn write_pulse(w: Writer, channels: &usize, device: &String, format: &SampleFormat) -> (r: Writer)
        ensures
            r.slots() == w.slots() + Self::slots_pulse(channels.deep_view(), device.deep_view(), format.deep_view()),
    {
        let ghost before = w.slots();
        let w = w.put::<usize>("channels", channels);
        let w = w.put::<String>("device", device);
        let w = w.put::<SampleFormat>("format", format);
        proof {
            assert(w.slots() =~= before + Self::slots_pulse(channels.deep_view(), device.deep_view(), format.deep_view()));
        }
        w
    }

    /// Reading what the variant `Pulse` wrote gives the fields back.
    pub proof fn lemma_pulse(channels: usize, device: Seq<char>, format: SampleFormat)
        ensures
            distinct_names(Self::slots_pulse(channels, device, format)),
            !names_slot(Self::slots_pulse(channels, device, format), tag_key()),
            Self::decode_pulse(present(Self::slots_pulse(channels, device, format))) == Ok::<PlaybackDeviceView, Fault>(
                PlaybackDeviceView::Pulse { channels: channels, device: device, format: format },
            ),
    {
        Self::lemma_names_pulse();
        let s = Self::slots_pulse(channels, device, format);
        lemma_slot_names(s, Self::names_pulse());
        lemma_present_known(s, Self::names_pulse());
        lemma_required::<usize>(s, 0, "channels"@, channels);
        lemma_required::<String>(s, 1, "device"@, device);
        lemma_required::<SampleFormat>(s, 2, "format"@, format);
    }

    /// What the variant `Pulse` writes is like any entries that its fields were read from.
    pub proof fn lemma_like_pulse(m: Entries)
        requires
            distinct_keys(m),
        ensures
            Self::decode_pulse(m) matches Ok(PlaybackDeviceView::Pulse { channels, device, format }) ==> alike_entries(
                m,
                present(Self::slots_pulse(channels, device, format)),
            ),
    {
        if let Ok(PlaybackDeviceView::Pulse { channels, device, format }) = Self::decode_pulse(m) {
            Self::lemma_names_pulse();
            lemma_unknown_field(m, Self::names_pulse());
            let s = lemma_matched_none(m);
            let s = lemma_matched_required::<usize>(m, s, "channels"@, channels);
            let s = lemma_matched_required::<String>(m, s, "device"@, device);
            let s = lemma_matched_required::<SampleFormat>(m, s, "format"@, format);
            assert(s =~= Self::slots_pulse(channels, device, format));
            lemma_slot_names(s, Self::names_pulse());
            lemma_alike_slots(m, s, Self::names_pulse());
        }
    }

    /// The keys that the variant `File` declares.
    pub open spec fn names_file() -> Seq<Seq<char>> {
        seq!["channels"@, "filename"@, "format"@, "wav_header"@]
    }

    /// The keys of the variant `File` are distinct, and none is the key of a discriminant.
    pub proof fn lemma_names_file()
        ensures
            Self::names_file().no_duplicates(),
            !Self::names_file().contains(tag_key()),
    {
        reveal_strlit("type");
        reveal_strlit("channels");
        reveal_strlit("filename");
        reveal_strlit("format");
        reveal_strlit("wav_header");
        assert("type"@.len() == 4);
        assert("channels"@.len() == 8 && "channels"@[0] == 'c');
        assert("filename"@.len() == 8 && "filename"@[0] == 'f');
        assert("format"@.len() == 6);
        assert("wav_header"@.len() == 10);
    }

    /// What the variant `File` writes: one slot for each field.
    pub open spec fn slots_file(channels: usize, filename: Seq<char>, format: SampleFormat, wav_header: Option<bool>) -> Seq<Slot> {
        seq![
            slot::<usize>("channels"@, channels),
            slot::<String>("filename"@, filename),
            slot::<SampleFormat>("format"@, format),
            slot_opt::<bool>("wav_header"@, wav_header),
        ]
    }

    /// What entries stand for, read as the variant `File`.
    pub open spec fn decode_file(m: Entries) -> Result<PlaybackDeviceView, Fault> {
        let channels = required::<usize>(m, "channels"@);
        let filename = required::<String>(m, "filename"@);
        let format = required::<SampleFormat>(m, "format"@);
        let wav_header = optional::<bool>(m, "wav_header"@);
        if let Some(e) = unknown_field(m, Self::names_file()) {
            Err(e)
        } else if channels is Err {
            Err(channels->Err_0)
        } else if filename is Err {
            Err(filename->Err_0)
        } else if format is Err {
            Err(format->Err_0)
        } else if wav_header is Err {
            Err(wav_header->Err_0)
        } else {
            Ok(
                PlaybackDeviceView::File {
                    channels: channels->Ok_0,
                    filename: filename->Ok_0,
                    format: format->Ok_0,
                    wav_header: wav_header->Ok_0,
                },
            )
        }
    }

    /// Reads the variant `File`.
    pub fn read_file(f: &Fields) -> (r: Result<PlaybackDevice, SchemaError>)
        ensures
            r matches Ok(x) ==> Self::decode_file(f@) == Ok::<PlaybackDeviceView, Fault>(x.deep_view()),
            r matches Err(e) ==> Self::decode_file(f@) == Err::<PlaybackDeviceView, Fault>(e.deep_view()),
    {
        let known = vec!["channels", "filename", "format", "wav_header"];
        proof {
            assert(texts(known@) =~= Self::names_file());
        }
        f.deny_unknown(&known)?;
        let channels = f.required::<usize>("channels")?;
        let filename = f.required::<String>("filename")?;
        let format = f.required::<SampleFormat>("format")?;
        let wav_header = f.optional::<bool>("wav_header")?;
        Ok(PlaybackDevice::File { channels, filename, format, wav_header })
    }

    /// Writes the fields of the variant `File` after what `w` holds.
    pub fn write_file(w: Writer, channels: &usize, filename: &String, format: &SampleFormat, wav_header: &Option<bool>) -> (r: Writer)
        ensures
            r.slots() == w.slots() + Self::slots_file(channels.deep_view(), filename.deep_view(), format.deep_view(), wav_header.deep_view()),
    {
        let ghost before = w.slots();
        let w = w.put::<usize>("channels", channels);
        let w = w.put::<String>("filename", filename);
        let w = w.put::<SampleFormat>("format", format);
        let w = w.put_opt::<bool>("wav_header", wav_header);
        proof {
            assert(w.slots() =~= before + Self::slots_file(channels.deep_view(), filename.deep_view(), format.deep_view(), wav_header.deep_view()));
        }
        w
    }

    /// Reading what the variant `File` wrote gives the fields back.
    pub proof fn lemma_file(channels: usize, filename: Seq<char>, format: SampleFormat, wav_header: Option<bool>)
        ensures
            distinct_names(Self::slots_file(channels, filename, format, wav_header)),
            !names_slot(Self::slots_file(channels, filename, format, wav_header), tag_key()),
            Self::decode_file(present(Self::slots_file(channels, filename, format, wav_header))) == Ok::<PlaybackDeviceView, Fault>(
                PlaybackDeviceView::File { channels: channels, filename: filename, format: format, wav_header: wav_header },
            ),
    {
        Self::lemma_names_file();
        let s = Self::slots_file(channels, filename, format, wav_header);
        lemma_slot_names(s, Self::names_file());
        lemma_present_known(s, Self::names_file());
        lemma_required::<usize>(s, 0, "channels"@, channels);
        lemma_required::<String>(s, 1, "filename"@, filename);
        lemma_required::<SampleFormat>(s, 2, "format"@, format);
        lemma_optional::<bool>(s, 3, "wav_header"@, wav_header);
    }

    /// What the variant `File` writes is like any entries that its fields were read from.
    pub proof fn lemma_like_file(m: Entries)
        requires
            distinct_keys(m),
        ensures
            Self::decode_file(m) matches Ok(PlaybackDeviceView::File { channels, filename, format, wav_header }) ==> alike_entries(
                m,
                present(Self::slots_file(channels, filename, format, wav_header)),
            ),
    {
        if let Ok(PlaybackDeviceView::File { channels, filename, format, wav_header }) = Self::decode_file(m) {
            Self::lemma_names_file();
            lemma_unknown_field(m, Self::names_file());
            let s = lemma_matched_none(m);
            let s = lemma_matched_required::<usize>(m, s, "channels"@, channels);
            let s = lemma_matched_required::<String>(m, s, "filename"@, filename);
            let s = lemma_matched_required::<SampleFormat>(m, s, "format"@, format);
            let s = lemma_matched_optional::<bool>(m, s, "wav_header"@, wav_header);
            assert(s =~= Self::slots_file(channels, filename, format, wav_header));
            lemma_slot_names(s, Self::names_file());
            lemma_alike_slots(m, s, Self::names_file());
        }
    }

    /// The keys that the variant `Stdout` declares.
    pub open spec fn names_stdout() -> Seq<Seq<char>> {
        seq!["channels"@, "format"@, "wav_header"@]
    }

    /// The keys of the variant `Stdout` are distinct, and none is the key of a discriminant.
    pub proof fn lemma_names_stdout()
        ensures
            Self::names_stdout().no_duplicates(),
            !Self::names_stdout().contains(tag_key()),
    {
        reveal_strlit("type");
        reveal_strlit("channels");
        reveal_strlit("format");
        reveal_strlit("wav_header");
        assert("type"@.len() == 4);
        assert("channels"@.len() == 8);
        assert("format"@.len() == 6);
        assert("wav_header"@.len() == 10);
    }

    /// What the variant `Stdout` writes: one slot for each field.
    pub open spec fn slots_stdout(channels: usize, format: SampleFormat, wav_header: Option<bool>) -> Seq<Slot> {
        seq![
            slot::<usize>("channels"@, channels),
            slot::<SampleFormat>("format"@, format),
            slot_opt::<bool>("wav_header"@, wav_header),
        ]
    }

    /// What entries stand for, read as the variant `Stdout`.
    pub open spec fn decode_stdout(m: Entries) -> Result<PlaybackDeviceView, Fault> {
        let channels = required::<usize>(m, "channels"@);
        let format = required::<SampleFormat>(m, "format"@);
        let wav_header = optional::<bool>(m, "wav_header"@);
        if let Some(e) = unknown_field(m, Self::names_stdout()) {
            Err(e)
        } else if channels is Err {
            Err(channels->Err_0)
        } else if format is Err {
            Err(format->Err_0)
        } else if wav_header is Err {
            Err(wav_header->Err_0)
        } else {
            Ok(
                PlaybackDeviceView::Stdout {
                    channels: channels->Ok_0,
                    format: format->Ok_0,
                    wav_header: wav_header->Ok_0,
                },
            )
        }
    }

    /// Reads the variant `Stdout`.
    pub fn read_stdout(f: &Fields) -> (r: Result<PlaybackDevice, SchemaError>)
        ensures
            r matches Ok(x) ==> Self::decode_stdout(f@) == Ok::<PlaybackDeviceView, Fault>(x.deep_view()),
            r matches Err(e) ==> Self::decode_stdout(f@) == Err::<PlaybackDeviceView, Fault>(e.deep_view()),
    {
        let known = vec!["channels", "format", "wav_header"];
        proof {
            assert(texts(known@) =~= Self::names_stdout());
        }
        f.deny_unknown(&known)?;
        let channels = f.required::<usize>("channels")?;
        let format = f.required::<SampleFormat>("format")?;
        let wav_header = f.optional::<bool>("wav_header")?;
        Ok(PlaybackDevice::Stdout { channels, format, wav_header })
    }

    /// Writes the fields of the variant `Stdout` after what `w` holds.
    pub fn write_stdout(w: Writer, channels: &usize, format: &SampleFormat, wav_header: &Option<bool>) -> (r: Writer)
        ensures
            r.slots() == w.slots() + Self::slots_stdout(channels.deep_view(), format.deep_view(), wav_header.deep_view()),
    {
        let ghost before = w.slots();
        let w = w.put::<usize>("channels", channels);
        let w = w.put::<SampleFormat>("format", format);
        let w = w.put_opt::<bool>("wav_header", wav_header);
        proof {
            assert(w.slots() =~= before + Self::slots_stdout(channels.deep_view(), format.deep_view(), wav_header.deep_view()));
        }
        w
    }

    /// Reading what the variant `Stdout` wrote gives the fields back.
    pub proof fn lemma_stdout(channels: usize, format: SampleFormat, wav_header: Option<bool>)
        ensures
            distinct_names(Self::slots_stdout(channels, format, wav_header)),
            !names_slot(Self::slots_stdout(channels, format, wav_header), tag_key()),
            Self::decode_stdout(present(Self::slots_stdout(channels, format, wav_header))) == Ok::<PlaybackDeviceView, Fault>(
                PlaybackDeviceView::Stdout { channels: channels, format: format, wav_header: wav_header },
            ),
    {
        Self::lemma_names_stdout();
        let s = Self::slots_stdout(channels, format, wav_header);
        lemma_slot_names(s, Self::names_stdout());
        lemma_present_known(s, Self::names_stdout());
        lemma_required::<usize>(s, 0, "channels"@, channels);
        lemma_required::<SampleFormat>(s, 1, "format"@, format);
        lemma_optional::<bool>(s, 2, "wav_header"@, wav_header);
    }

    /// What the variant `Stdout` writes is like any entries that its fields were read from.
    pub proof fn lemma_like_stdout(m: Entries)
        requires
            distinct_keys(m),
        ensures
            Self::decode_stdout(m) matches Ok(PlaybackDeviceView::Stdout { channels, format, wav_header }) ==> alike_entries(
                m,
                present(Self::slots_stdout(channels, format, wav_header)),
            ),
    {
        if let Ok(PlaybackDeviceView::Stdout { channels, format, wav_header }) = Self::decode_stdout(m) {
            Self::lemma_names_stdout();
            lemma_unknown_field(m, Self::names_stdout());
            let s = lemma_matched_none(m);
            let s = lemma_matched_required::<usize>(m, s, "channels"@, channels);
            let s = lemma_matched_required::<SampleFormat>(m, s, "format"@, format);
            let s = lemma_matched_optional::<bool>(m, s, "wav_header"@, wav_header);
            assert(s =~= Self::slots_stdout(channels, format, wav_header));
            lemma_slot_names(s, Self::names_stdout());
            lemma_alike_slots(m, s, Self::names_stdout());
        }
    }

    /// The keys that the variant `Jack` declares.
    pub open spec fn names_jack() -> Seq<Seq<char>> {
        seq!["channels"@, "device"@]
    }

    /// The keys of the variant `Jack` are distinct, and none is the key of a discriminant.
    pub proof fn lemma_names_jack()
        ensures
            Self::names_jack().no_duplicates(),
            !Self::names_jack().contains(tag_key()),
    {
        reveal_strlit("type");
        reveal_strlit("channels");
        reveal_strlit("device");
        assert("type"@.len() == 4);
        assert("channels"@.len() == 8);
        assert("device"@.len() == 6);
    }

    /// What the variant `Jack` writes: one slot for each field.
    pub open spec fn slots_jack(channels: usize, device: Seq<char>) -> Seq<Slot> {
        seq![
            slot::<usize>("channels"@, channels),
            slot::<String>("device"@, device),
        ]
    }

    /// What entries stand for, read as the variant `Jack`.
    pub open spec fn decode_jack(m: Entries) -> Result<PlaybackDeviceView, Fault> {
        let channels = required::<usize>(m, "channels"@);
        let device = required::<String>(m, "device"@);
        if let Some(e) = unknown_field(m, Self::names_jack()) {
            Err(e)
        } else if channels is Err {
            Err(channels->Err_0)
        } else if device is Err {
            Err(device->Err_0)
        } else {
            Ok(PlaybackDeviceView::Jack { channels: channels->Ok_0, device: device->Ok_0 })
        }
    }

    /// Reads the variant `Jack`.
    pub fn read_jack(f: &Fields) -> (r: Result<PlaybackDevice, SchemaError>)
        ensures
            r matches Ok(x) ==> Self::decode_jack(f@) == Ok::<PlaybackDeviceView, Fault>(x.deep_view()),
            r matches Err(e) ==> Self::decode_jack(f@) == Err::<PlaybackDeviceView, Fault>(e.deep_view()),
    {
        let known = vec!["channels", "device"];
        proof {
            assert(texts(known@) =~= Self::names_jack());
        }
        f.deny_unknown(&known)?;
        let channels = f.required::<usize>("channels")?;
        let device = f.required::<String>("device")?;
        Ok(PlaybackDevice::Jack { channels, device })
    }

    /// Writes the fields of the variant `Jack` after what `w` holds.
    pub fn write_jack(w: Writer, channels: &usize, device: &String) -> (r: Writer)
        ensures
            r.slots() == w.slots() + Self::slots_jack(channels.deep_view(), device.deep_view()),
    {
        let ghost before = w.slots();
        let w = w.put::<usize>("channels", channels);
        let w = w.put::<String>("device", device);
        proof {
            assert(w.slots() =~= before + Self::slots_jack(channels.deep_view(), device.deep_view()));
        }
        w
    }

    /// Reading what the variant `Jack` wrote gives the fields back.
    pub proof fn lemma_jack(channels: usize, device: Seq<char>)
        ensures
            distinct_names(Self::slots_jack(channels, device)),
            !names_slot(Self::slots_jack(channels, device), tag_key()),
            Self::decode_jack(present(Self::slots_jack(channels, device))) == Ok::<PlaybackDeviceView, Fault>(
                PlaybackDeviceView::Jack { channels: channels, device: device },
            ),
    {
        Self::lemma_names_jack();
        let s = Self::slots_jack(channels, device);
        lemma_slot_names(s, Self::names_jack());
        lemma_present_known(s, Self::names_jack());
        lemma_required::<usize>(s, 0, "channels"@, channels);
        lemma_required::<String>(s, 1, "device"@, device);
    }

    /// What the variant `Jack` writes is like any entries that its fields were read from.
    pub proof fn lemma_like_jack(m: Entries)
        requires
            distinct_keys(m),
        ensures
            Self::decode_jack(m) matches Ok(PlaybackDeviceView::Jack { channels, device }) ==> alike_entries(
                m,
                present(Self::slots_jack(channels, device)),
            ),
    {
        if let Ok(PlaybackDeviceView::Jack { channels, device }) = Self::decode_jack(m) {
            Self::lemma_names_jack();
            lemma_unknown_field(m, Self::names_jack());
            let s = lemma_matched_none(m);
            let s = lemma_matched_required::<usize>(m, s, "channels"@, channels);
            let s = lemma_matched_required::<String>(m, s, "device"@, device);
            assert(s =~= Self::slots_jack(channels, device));
            lemma_slot_names(s, Self::names_jack());
            lemma_alike_slots(m, s, Self::names_jack());
        }
    }

    /// The discriminant of a value.
    pub open spec fn kind_of(v: PlaybackDeviceView) -> PlaybackDeviceKind {
        match v {
            PlaybackDeviceView::Alsa { .. } => PlaybackDeviceKind::Alsa,
            PlaybackDeviceView::Pulse { .. } => PlaybackDeviceKind::Pulse,
            PlaybackDeviceView::File { .. } => PlaybackDeviceKind::File,
            PlaybackDeviceView::Stdout { .. } => PlaybackDeviceKind::Stdout,
            PlaybackDeviceView::CoreAudio(_) => PlaybackDeviceKind::CoreAudio,
            PlaybackDeviceView::Wasapi(_) => PlaybackDeviceKind::Wasapi,
            PlaybackDeviceView::Jack { .. } => PlaybackDeviceKind::Jack,
        }
    }

    /// What a value writes beside its discriminant.
    pub open spec fn variant_slots(v: PlaybackDeviceView) -> Seq<Slot> {
        match v {
            PlaybackDeviceView::Alsa { channels, device, format } => Self::slots_alsa(channels, device, format),
            PlaybackDeviceView::Pulse { channels, device, format } => Self::slots_pulse(channels, device, format),
            PlaybackDeviceView::File { channels, filename, format, wav_header } => Self::slots_file(channels, filename, format, wav_header),
            PlaybackDeviceView::Stdout { channels, format, wav_header } => Self::slots_stdout(channels, format, wav_header),
            PlaybackDeviceView::CoreAudio(p) => <PlaybackDeviceCA as Record>::slots(p),
            PlaybackDeviceView::Wasapi(p) => <PlaybackDeviceWasapi as Record>::slots(p),
            PlaybackDeviceView::Jack { channels, device } => Self::slots_jack(channels, device),
        }
    }

    /// The value that entries stand for, read as the variant that `k` selects.
    pub open spec fn decode_variant(k: PlaybackDeviceKind, m: Entries) -> Result<PlaybackDeviceView, Fault> {
        match k {
            PlaybackDeviceKind::Alsa => Self::decode_alsa(m),
            PlaybackDeviceKind::Pulse => Self::decode_pulse(m),
            PlaybackDeviceKind::File => Self::decode_file(m),
            PlaybackDeviceKind::Stdout => Self::decode_stdout(m),
            PlaybackDeviceKind::CoreAudio => match <PlaybackDeviceCA as Record>::decode_fields(m) {
                Ok(p) => Ok(PlaybackDeviceView::CoreAudio(p)),
                Err(e) => Err(e),
            },
            PlaybackDeviceKind::Wasapi => match <PlaybackDeviceWasapi as Record>::decode_fields(m) {
                Ok(p) => Ok(PlaybackDeviceView::Wasapi(p)),
                Err(e) => Err(e),
            },
            PlaybackDeviceKind::Jack => Self::decode_jack(m),
        }
    }
}

impl Schema for PlaybackDevice {
    open spec fn decode(n: NodeView) -> Result<PlaybackDeviceView, Fault> {
        decode_tagged(n, |k: PlaybackDeviceKind, m: Entries| Self::decode_variant(k, m))
    }

    open spec fn encode(v: PlaybackDeviceView) -> NodeView {
        tagged_node(Self::kind_of(v).name(), Self::variant_slots(v))
    }

    fn from_node(n: &Node) -> (r: Result<PlaybackDevice, SchemaError>) {
        let f = Fields::of(n)?;
        let (k, rest) = f.tagged::<PlaybackDeviceKind>()?;
        match k {
            PlaybackDeviceKind::Alsa => Self::read_alsa(&rest),
            PlaybackDeviceKind::Pulse => Self::read_pulse(&rest),
            PlaybackDeviceKind::File => Self::read_file(&rest),
            PlaybackDeviceKind::Stdout => Self::read_stdout(&rest),
            PlaybackDeviceKind::CoreAudio => match <PlaybackDeviceCA as Record>::read_fields(&rest) {
                Ok(p) => Ok(PlaybackDevice::CoreAudio(p)),
                Err(e) => Err(e),
            },
            PlaybackDeviceKind::Wasapi => match <PlaybackDeviceWasapi as Record>::read_fields(&rest) {
                Ok(p) => Ok(PlaybackDevice::Wasapi(p)),
                Err(e) => Err(e),
            },
            PlaybackDeviceKind::Jack => Self::read_jack(&rest),
        }
    }

    fn to_node(&self) -> (n: Node) {
        let ghost v = self.deep_view();
        let w = Writer::tagged(&self.kind());
        let w = match self {
            PlaybackDevice::Alsa { channels, device, format } => Self::write_alsa(w, channels, device, format),
            PlaybackDevice::Pulse { channels, device, format } => Self::write_pulse(w, channels, device, format),
            PlaybackDevice::File { channels, filename, format, wav_header } => Self::write_file(w, channels, filename, format, wav_header),
            PlaybackDevice::Stdout { channels, format, wav_header } => Self::write_stdout(w, channels, format, wav_header),
            PlaybackDevice::CoreAudio(p) => p.write_fields(w),
            PlaybackDevice::Wasapi(p) => p.write_fields(w),
            PlaybackDevice::Jack { channels, device } => Self::write_jack(w, channels, device),
        };
        w.finish()
    }

    proof fn lemma_round_trip(v: PlaybackDeviceView) {
        Self::lemma_variant(v);
        lemma_tagged_round_trip(
            Self::kind_of(v),
            Self::variant_slots(v),
            |k: PlaybackDeviceKind, m: Entries| Self::decode_variant(k, m),
        );
    }

    proof fn lemma_faithful(n: NodeView) {
        if is_record(n) {
            if let Ok(k) = tag_of::<PlaybackDeviceKind>(entries(n)) {
                lemma_untagged_distinct::<PlaybackDeviceKind>(n);
                Self::lemma_variant_like(k, untagged(entries(n)));
                if let Ok(v) = Self::decode_variant(k, untagged(entries(n))) {
                    Self::lemma_variant(v);
                    lemma_tagged_faithful(n, k, Self::variant_slots(v));
                }
            }
        }
    }
}

impl PlaybackDevice {
    /// Reading what a value writes beside its discriminant, as the variant of
    /// the value, gives the value back; its slots have distinct names, none of
    /// them the key of the discriminant.
    pub proof fn lemma_variant(v: PlaybackDeviceView)
        ensures
            distinct_names(Self::variant_slots(v)),
            !names_slot(Self::variant_slots(v), tag_key()),
            Self::decode_variant(Self::kind_of(v), present(Self::variant_slots(v))) == Ok::<PlaybackDeviceView, Fault>(v),
    {
        match v {
            PlaybackDeviceView::Alsa { channels, device, format } => {
                Self::lemma_alsa(channels, device, format);
            },
            PlaybackDeviceView::Pulse { channels, device, format } => {
                Self::lemma_pulse(channels, device, format);
            },
            PlaybackDeviceView::File { channels, filename, format, wav_header } => {
                Self::lemma_file(channels, filename, format, wav_header);
            },
            PlaybackDeviceView::Stdout { channels, format, wav_header } => {
                Self::lemma_stdout(channels, format, wav_header);
            },
            PlaybackDeviceView::CoreAudio(p) => {
                <PlaybackDeviceCA as Record>::lemma_fields(p);
            },
            PlaybackDeviceView::Wasapi(p) => {
                <PlaybackDeviceWasapi as Record>::lemma_fields(p);
            },
            PlaybackDeviceView::Jack { channels, device } => {
                Self::lemma_jack(channels, device);
            },
        }
    }

    /// Two mappings that differ only in the spelling of the discriminant, where
    /// both spellings select the same variant, stand for the same value.
    pub proof fn lemma_spelling(m: Entries, i: int, s1: Seq<char>, s2: Seq<char>)
        requires
            distinct_keys(m),
            0 <= i < m.len(),
            m[i].0 == tag_key(),
            PlaybackDeviceKind::named(s1) == PlaybackDeviceKind::named(s2),
        ensures
            Self::decode(record_node(m.update(i, (tag_key(), NodeView::String(s1))))) == Self::decode(
                record_node(m.update(i, (tag_key(), NodeView::String(s2)))),
            ),
    {
        lemma_spelling(m, i, s1, s2, |k: PlaybackDeviceKind, m: Entries| Self::decode_variant(k, m));
    }

    /// What a value writes beside its discriminant is like any entries that
    /// the value was read from as the variant that `k` selects; and the value
    /// is of that variant.
    pub proof fn lemma_variant_like(k: PlaybackDeviceKind, m: Entries)
        requires
            distinct_keys(m),
        ensures
            Self::decode_variant(k, m) matches Ok(v) ==> Self::kind_of(v) == k && alike_entries(
                m,
                present(Self::variant_slots(v)),
            ),
    {
        match k {
            PlaybackDeviceKind::Alsa => {
                Self::lemma_like_alsa(m);
            },
            PlaybackDeviceKind::Pulse => {
                Self::lemma_like_pulse(m);
            },
            PlaybackDeviceKind::File => {
                Self::lemma_like_file(m);
            },
            PlaybackDeviceKind::Stdout => {
                Self::lemma_like_stdout(m);
            },
            PlaybackDeviceKind::CoreAudio => {
                <PlaybackDeviceCA as Record>::lemma_fields_faithful(m);
            },
            PlaybackDeviceKind::Wasapi => {
                <PlaybackDeviceWasapi as Record>::lemma_fields_faithful(m);
            },
            PlaybackDeviceKind::Jack => {
                Self::lemma_like_jack(m);
            },
        }
    }

    /// The discriminant of the value.
    pub fn kind(&self) -> (k: PlaybackDeviceKind)
        ensures
            k == Self::kind_of(self.deep_view()),
    {
        match self {
            PlaybackDevice::Alsa { .. } => PlaybackDeviceKind::Alsa,
            PlaybackDevice::Pulse { .. } => PlaybackDeviceKind::Pulse,
            PlaybackDevice::File { .. } => PlaybackDeviceKind::File,
            PlaybackDevice::Stdout { .. } => PlaybackDeviceKind::Stdout,
            PlaybackDevice::CoreAudio(_) => PlaybackDeviceKind::CoreAudio,
            PlaybackDevice::Wasapi(_) => PlaybackDeviceKind::Wasapi,
            PlaybackDevice::Jack { .. } => PlaybackDeviceKind::Jack,
        }
    }
}

/// The devices, the rate and size of what flows between them, and how the flow
/// is kept steady.
#[derive(Clone, Debug, PartialEq, Eq)]
pub struct Devices {
    pub samplerate: usize,
    pub chunksize: usize,
    pub queuelimit: Option<usize>,
    pub silence_threshold: Option<Numeral>,
    pub silence_timeout: Option<Numeral>,
    pub capture: CaptureDevice,
    pub playback: PlaybackDevice,
    pub enable_rate_adjust: Option<bool>,
    pub target_level: Option<usize>,
    pub adjust_period: Option<Numeral>,
    pub resampler: Option<Resampler>,
    pub capture_samplerate: Option<usize>,
    pub stop_on_rate_change: Option<bool>,
    pub rate_measure_interval: Option<Numeral>,
    pub volume_ramp_time: Option<Numeral>,
    pub volume_limit: Option<Numeral>,
    pub multithreaded: Option<bool>,
    pub worker_threads: Option<usize>,
}

/// The mathematical value of a [`Devices`].
pub struct DevicesView {
    pub samplerate: usize,
    pub chunksize: usize,
    pub queuelimit: Option<usize>,
    pub silence_threshold: Option<NumeralView>,
    pub silence_timeout: Option<NumeralView>,
    pub capture: CaptureDeviceView,
    pub playback: PlaybackDeviceView,
    pub enable_rate_adjust: Option<bool>,
    pub target_level: Option<usize>,
    pub adjust_period: Option<NumeralView>,
    pub resampler: Option<ResamplerView>,
    pub capture_samplerate: Option<usize>,
    pub stop_on_rate_change: Option<bool>,
    pub rate_measure_interval: Option<NumeralView>,
    pub volume_ramp_time: Option<NumeralView>,
    pub volume_limit: Option<NumeralView>,
    pub multithreaded: Option<bool>,
    pub worker_threads: Option<usize>,
}

impl DeepView for Devices {
    type V = DevicesView;

    open spec fn deep_view(&self) -> DevicesView {
        DevicesView {
            samplerate: self.samplerate.deep_view(),
            chunksize: self.chunksize.deep_view(),
            queuelimit: self.queuelimit.deep_view(),
            silence_threshold: self.silence_threshold.deep_view(),
            silence_timeout: self.silence_timeout.deep_view(),
            capture: self.capture.deep_view(),
            playback: self.playback.deep_view(),
            enable_rate_adjust: self.enable_rate_adjust.deep_view(),
            target_level: self.target_level.deep_view(),
            adjust_period: self.adjust_period.deep_view(),
            resampler: self.resampler.deep_view(),
            capture_samplerate: self.capture_samplerate.deep_view(),
            stop_on_rate_change: self.stop_on_rate_change.deep_view(),
            rate_measure_interval: self.rate_measure_interval.deep_view(),
            volume_ramp_time: self.volume_ramp_time.deep_view(),
            volume_limit: self.volume_limit.deep_view(),
            multithreaded: self.multithreaded.deep_view(),
            worker_threads: self.worker_threads.deep_view(),
        }
    }
}

impl Devices {
    /// The keys that the record declares.
    pub open spec fn names() -> Seq<Seq<char>> {
        seq![
            "samplerate"@, "chunksize"@, "queuelimit"@, "silence_threshold"@, "silence_timeout"@,
            "capture"@, "playback"@, "enable_rate_adjust"@, "target_level"@, "adjust_period"@,
            "resampler"@, "capture_samplerate"@, "stop_on_rate_change"@, "rate_measure_interval"@,
            "volume_ramp_time"@, "volume_limit"@, "multithreaded"@, "worker_threads"@,
        ]
    }

    /// The keys of the record are distinct, and none is the key of a discriminant.
    pub proof fn lemma_names()
        ensures
            Self::names().no_duplicates(),
            !Self::names().contains(tag_key()),
    {
        reveal_strlit("type");
        reveal_strlit("samplerate");
        reveal_strlit("chunksize");
        reveal_strlit("queuelimit");
        reveal_strlit("silence_threshold");
        reveal_strlit("silence_timeout");
        reveal_strlit("capture");
        reveal_strlit("playback");
        reveal_strlit("enable_rate_adjust");
        reveal_strlit("target_level");
        reveal_strlit("adjust_period");
        reveal_strlit("resampler");
        reveal_strlit("capture_samplerate");
        reveal_strlit("stop_on_rate_change");
        reveal_strlit("rate_measure_interval");
        reveal_strlit("volume_ramp_time");
        reveal_strlit("volume_limit");
        reveal_strlit("multithreaded");
        reveal_strlit("worker_threads");
        assert("type"@.len() == 4);
        assert("samplerate"@.len() == 10 && "samplerate"@[0] == 's');
        assert("chunksize"@.len() == 9 && "chunksize"@[0] == 'c');
        assert("queuelimit"@.len() == 10 && "queuelimit"@[0] == 'q');
        assert("silence_threshold"@.len() == 17);
        assert("silence_timeout"@.len() == 15);
        assert("capture"@.len() == 7);
        assert("playback"@.len() == 8);
        assert("enable_rate_adjust"@.len() == 18 && "enable_rate_adjust"@[0] == 'e');
        assert("target_level"@.len() == 12 && "target_level"@[0] == 't');
        assert("adjust_period"@.len() == 13 && "adjust_period"@[0] == 'a');
        assert("resampler"@.len() == 9 && "resampler"@[0] == 'r');
        assert("capture_samplerate"@.len() == 18 && "capture_samplerate"@[0] == 'c');
        assert("stop_on_rate_change"@.len() == 19);
        assert("rate_measure_interval"@.len() == 21);
        assert("volume_ramp_time"@.len() == 16);
        assert("volume_limit"@.len() == 12 && "volume_limit"@[0] == 'v');
        assert("multithreaded"@.len() == 13 && "multithreaded"@[0] == 'm');
        assert("worker_threads"@.len() == 14);
    }
}

impl Record for Devices {
    open spec fn slots(v: DevicesView) -> Seq<Slot> {
        seq![
            slot::<usize>("samplerate"@, v.samplerate),
            slot::<usize>("chunksize"@, v.chunksize),
            slot_opt::<usize>("queuelimit"@, v.queuelimit),
            slot_opt::<Numeral>("silence_threshold"@, v.silence_threshold),
            slot_opt::<Numeral>("silence_timeout"@, v.silence_timeout),
            slot::<CaptureDevice>("capture"@, v.capture),
            slot::<PlaybackDevice>("playback"@, v.playback),
            slot_opt::<bool>("enable_rate_adjust"@, v.enable_rate_adjust),
            slot_opt::<usize>("target_level"@, v.target_level),
            slot_opt::<Numeral>("adjust_period"@, v.adjust_period),
            slot_opt::<Resampler>("resampler"@, v.resampler),
            slot_opt::<usize>("capture_samplerate"@, v.capture_samplerate),
            slot_opt::<bool>("stop_on_rate_change"@, v.stop_on_rate_change),
            slot_opt::<Numeral>("rate_measure_interval"@, v.rate_measure_interval),
            slot_opt::<Numeral>("volume_ramp_time"@, v.volume_ramp_time),
            slot_opt::<Numeral>("volume_limit"@, v.volume_limit),
            slot_opt::<bool>("multithreaded"@, v.multithreaded),
            slot_opt::<usize>("worker_threads"@, v.worker_threads),
        ]
    }

    open spec fn decode_fields(m: Entries) -> Result<DevicesView, Fault> {
        let samplerate = required::<usize>(m, "samplerate"@);
        let chunksize = required::<usize>(m, "chunksize"@);
        let queuelimit = optional::<usize>(m, "queuelimit"@);
        let silence_threshold = optional::<Numeral>(m, "silence_threshold"@);
        let silence_timeout = optional::<Numeral>(m, "silence_timeout"@);
        let capture = required::<CaptureDevice>(m, "capture"@);
        let playback = required::<PlaybackDevice>(m, "playback"@);
        let enable_rate_adjust = optional::<bool>(m, "enable_rate_adjust"@);
        let target_level = optional::<usize>(m, "target_level"@);
        let adjust_period = optional::<Numeral>(m, "adjust_period"@);
        let resampler = optional::<Resampler>(m, "resampler"@);
        let capture_samplerate = optional::<usize>(m, "capture_samplerate"@);
        let stop_on_rate_change = optional::<bool>(m, "stop_on_rate_change"@);
        let rate_measure_interval = optional::<Numeral>(m, "rate_measure_interval"@);
        let volume_ramp_time = optional::<Numeral>(m, "volume_ramp_time"@);
        let volume_limit = optional::<Numeral>(m, "volume_limit"@);
        let multithreaded = optional::<bool>(m, "multithreaded"@);
        let worker_threads = optional::<usize>(m, "worker_threads"@);
        if let Some(e) = unknown_field(m, Self::names()) {
            Err(e)
        } else if samplerate is Err {
            Err(samplerate->Err_0)
        } else if chunksize is Err {
            Err(chunksize->Err_0)
        } else if queuelimit is Err {
            Err(queuelimit->Err_0)
        } else if silence_threshold is Err {
            Err(silence_threshold->Err_0)
        } else if silence_timeout is Err {
            Err(silence_timeout->Err_0)
        } else if capture is Err {
            Err(capture->Err_0)
        } else if playback is Err {
            Err(playback->Err_0)
        } else if enable_rate_adjust is Err {
            Err(enable_rate_adjust->Err_0)
        } else if target_level is Err {
            Err(target_level->Err_0)
        } else if adjust_period is Err {
            Err(adjust_period->Err_0)
        } else if resampler is Err {
            Err(resampler->Err_0)
        } else if capture_samplerate is Err {
            Err(capture_samplerate->Err_0)
        } else if stop_on_rate_change is Err {
            Err(stop_on_rate_change->Err_0)
        } else if rate_measure_interval is Err {
            Err(rate_measure_interval->Err_0)
        } else if volume_ramp_time is Err {
            Err(volume_ramp_time->Err_0)
        } else if volume_limit is Err {
            Err(volume_limit->Err_0)
        } else if multithreaded is Err {
            Err(multithreaded->Err_0)
        } else if worker_threads is Err {
            Err(worker_threads->Err_0)
        } else {
            Ok(
                DevicesView {
                    samplerate: samplerate->Ok_0,
                    chunksize: chunksize->Ok_0,
                    queuelimit: queuelimit->Ok_0,
                    silence_threshold: silence_threshold->Ok_0,
                    silence_timeout: silence_timeout->Ok_0,
                    capture: capture->Ok_0,
                    playback: playback->Ok_0,
                    enable_rate_adjust: enable_rate_adjust->Ok_0,
                    target_level: target_level->Ok_0,
                    adjust_period: adjust_period->Ok_0,
                    resampler: resampler->Ok_0,
                    capture_samplerate: capture_samplerate->Ok_0,
                    stop_on_rate_change: stop_on_rate_change->Ok_0,
                    rate_measure_interval: rate_measure_interval->Ok_0,
                    volume_ramp_time: volume_ramp_time->Ok_0,
                    volume_limit: volume_limit->Ok_0,
                    multithreaded: multithreaded->Ok_0,
                    worker_threads: worker_threads->Ok_0,
                },
            )
        }
    }

    fn read_fields(f: &Fields) -> (r: Result<Devices, SchemaError>) {
        let known = vec![
            "samplerate", "chunksize", "queuelimit", "silence_threshold", "silence_timeout",
            "capture", "playback", "enable_rate_adjust", "target_level", "adjust_period",
            "resampler", "capture_samplerate", "stop_on_rate_change", "rate_measure_interval",
            "volume_ramp_time", "volume_limit", "multithreaded", "worker_threads",
        ];
        proof {
            assert(texts(known@) =~= Self::names());
        }
        f.deny_unknown(&known)?;
        let samplerate = f.required::<usize>("samplerate")?;
        let chunksize = f.required::<usize>("chunksize")?;
        let queuelimit = f.optional::<usize>("queuelimit")?;
        let silence_threshold = f.optional::<Numeral>("silence_threshold")?;
        let silence_timeout = f.optional::<Numeral>("silence_timeout")?;
        let capture = f.required::<CaptureDevice>("capture")?;
        let playback = f.required::<PlaybackDevice>("playback")?;
        let enable_rate_adjust = f.optional::<bool>("enable_rate_adjust")?;
        let target_level = f.optional::<usize>("target_level")?;
        let adjust_period = f.optional::<Numeral>("adjust_period")?;
        let resampler = f.optional::<Resampler>("resampler")?;
        let capture_samplerate = f.optional::<usize>("capture_samplerate")?;
        let stop_on_rate_change = f.optional::<bool>("stop_on_rate_change")?;
        let rate_measure_interval = f.optional::<Numeral>("rate_measure_interval")?;
        let volume_ramp_time = f.optional::<Numeral>("volume_ramp_time")?;
        let volume_limit = f.optional::<Numeral>("volume_limit")?;
        let multithreaded = f.optional::<bool>("multithreaded")?;
        let worker_threads = f.optional::<usize>("worker_threads")?;
        Ok(Devices { samplerate, chunksize, queuelimit, silence_threshold, silence_timeout, capture, playback, enable_rate_adjust, target_level, adjust_period, resampler, capture_samplerate, stop_on_rate_change, rate_measure_interval, volume_ramp_time, volume_limit, multithreaded, worker_threads })
    }

    fn write_fields(&self, w: Writer) -> (r: Writer) {
        let ghost before = w.slots();
        let w = w.put::<usize>("samplerate", &self.samplerate);
        let w = w.put::<usize>("chunksize", &self.chunksize);
        let w = w.put_opt::<usize>("queuelimit", &self.queuelimit);
        let w = w.put_opt::<Numeral>("silence_threshold", &self.silence_threshold);
        let w = w.put_opt::<Numeral>("silence_timeout", &self.silence_timeout);
        let w = w.put::<CaptureDevice>("capture", &self.capture);
        let w = w.put::<PlaybackDevice>("playback", &self.playback);
        let w = w.put_opt::<bool>("enable_rate_adjust", &self.enable_rate_adjust);
        let w = w.put_opt::<usize>("target_level", &self.target_level);
        let w = w.put_opt::<Numeral>("adjust_period", &self.adjust_period);
        let w = w.put_opt::<Resampler>("resampler", &self.resampler);
        let w = w.put_opt::<usize>("capture_samplerate", &self.capture_samplerate);
        let w = w.put_opt::<bool>("stop_on_rate_change", &self.stop_on_rate_change);
        let w = w.put_opt::<Numeral>("rate_measure_interval", &self.rate_measure_interval);
        let w = w.put_opt::<Numeral>("volume_ramp_time", &self.volume_ramp_time);
        let w = w.put_opt::<Numeral>("volume_limit", &self.volume_limit);
        let w = w.put_opt::<bool>("multithreaded", &self.multithreaded);
        let w = w.put_opt::<usize>("worker_threads", &self.worker_threads);
        proof {
            assert(w.slots() =~= before + Self::slots(self.deep_view()));
        }
        w
    }

    proof fn lemma_fields(v: DevicesView) {
        Self::lemma_names();
        let s = Self::slots(v);
        lemma_slot_names(s, Self::names());
        lemma_present_known(s, Self::names());
        lemma_required::<usize>(s, 0, "samplerate"@, v.samplerate);
        lemma_required::<usize>(s, 1, "chunksize"@, v.chunksize);
        lemma_optional::<usize>(s, 2, "queuelimit"@, v.queuelimit);
        lemma_optional::<Numeral>(s, 3, "silence_threshold"@, v.silence_threshold);
        lemma_optional::<Numeral>(s, 4, "silence_timeout"@, v.silence_timeout);
        lemma_required::<CaptureDevice>(s, 5, "capture"@, v.capture);
        lemma_required::<PlaybackDevice>(s, 6, "playback"@, v.playback);
        lemma_optional::<bool>(s, 7, "enable_rate_adjust"@, v.enable_rate_adjust);
        lemma_optional::<usize>(s, 8, "target_level"@, v.target_level);
        lemma_optional::<Numeral>(s, 9, "adjust_period"@, v.adjust_period);
        lemma_optional::<Resampler>(s, 10, "resampler"@, v.resampler);
        lemma_optional::<usize>(s, 11, "capture_samplerate"@, v.capture_samplerate);
        lemma_optional::<bool>(s, 12, "stop_on_rate_change"@, v.stop_on_rate_change);
        lemma_optional::<Numeral>(s, 13, "rate_measure_interval"@, v.rate_measure_interval);
        lemma_optional::<Numeral>(s, 14, "volume_ramp_time"@, v.volume_ramp_time);
        lemma_optional::<Numeral>(s, 15, "volume_limit"@, v.volume_limit);
        lemma_optional::<bool>(s, 16, "multithreaded"@, v.multithreaded);
        lemma_optional::<usize>(s, 17, "worker_threads"@, v.worker_threads);
    }

    proof fn lemma_fields_faithful(m: Entries) {
        if let Ok(v) = Self::decode_fields(m) {
            Self::lemma_names();
            lemma_unknown_field(m, Self::names());
            let s = lemma_matched_none(m);
            let s = lemma_matched_required::<usize>(m, s, "samplerate"@, v.samplerate);
            let s = lemma_matched_required::<usize>(m, s, "chunksize"@, v.chunksize);
            let s = lemma_matched_optional::<usize>(m, s, "queuelimit"@, v.queuelimit);
            let s = lemma_matched_optional::<Numeral>(m, s, "silence_threshold"@, v.silence_threshold);
            let s = lemma_matched_optional::<Numeral>(m, s, "silence_timeout"@, v.silence_timeout);
            let s = lemma_matched_required::<CaptureDevice>(m, s, "capture"@, v.capture);
            let s = lemma_matched_required::<PlaybackDevice>(m, s, "playback"@, v.playback);
            let s = lemma_matched_optional::<bool>(m, s, "enable_rate_adjust"@, v.enable_rate_adjust);
            let s = lemma_matched_optional::<usize>(m, s, "target_level"@, v.target_level);
            let s = lemma_matched_optional::<Numeral>(m, s, "adjust_period"@, v.adjust_period);
            let s = lemma_matched_optional::<Resampler>(m, s, "resampler"@, v.resampler);
            let s = lemma_matched_optional::<usize>(m, s, "capture_samplerate"@, v.capture_samplerate);
            let s = lemma_matched_optional::<bool>(m, s, "stop_on_rate_change"@, v.stop_on_rate_change);
            let s = lemma_matched_optional::<Numeral>(m, s, "rate_measure_interval"@, v.rate_measure_interval);
            let s = lemma_matched_optional::<Numeral>(m, s, "volume_ramp_time"@, v.volume_ramp_time);
            let s = lemma_matched_optional::<Numeral>(m, s, "volume_limit"@, v.volume_limit);
            let s = lemma_matched_optional::<bool>(m, s, "multithreaded"@, v.multithreaded);
            let s = lemma_matched_optional::<usize>(m, s, "worker_threads"@, v.worker_threads);
            assert(s =~= Self::slots(v));
            lemma_slot_names(s, Self::names());
            lemma_alike_slots(m, s, Self::names());
        }
    }
}

} // verus!
