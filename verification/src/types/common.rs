//! Closed sets of values that several parts of a configuration use.

use vstd::prelude::*;
use crate::error::{Fault, SchemaError};
use crate::fields::{texts, Fields, Writer};
use crate::likeness::{
    alike_entries, lemma_alike_slots, lemma_matched_none, lemma_matched_required,
    lemma_tagged_faithful, lemma_untagged_distinct,
};
use crate::node::{Node, NodeView, Numeral, NumeralView};
use crate::record::{
    decode_tagged, distinct_keys, distinct_names, entries, is_record, lemma_present_known,
    lemma_required, lemma_slot_names, lemma_tagged_round_trip, lemma_unknown_field, names_slot,
    present, required, slot, tag_key, tag_of, tagged_node, unknown_field, untagged, Entries, Slot,
};
use crate::schema::Schema;
use crate::spelling::{
    decode_spelled, encode_spelled, lemma_spelled_faithful, lemma_spelled_round_trip, read_spelled,
    write_spelled, Spelled,
};
use crate::text::same_text;

verus! {

/// The format of a sample on a device or in a raw stream.
#[derive(Clone, Copy, Debug, PartialEq, Eq)]
pub enum SampleFormat {
    S16LE,
    S24LE,
    S24LE3,
    S32LE,
    FLOAT32LE,
    FLOAT64LE,
}

impl DeepView for SampleFormat {
    type V = SampleFormat;

    open spec fn deep_view(&self) -> SampleFormat {
        *self
    }
}

impl Spelled for SampleFormat {
    open spec fn name(self) -> Seq<char> {
        match self {
            SampleFormat::S16LE => "S16LE"@,
            SampleFormat::S24LE => "S24LE"@,
            SampleFormat::S24LE3 => "S24LE3"@,
            SampleFormat::S32LE => "S32LE"@,
            SampleFormat::FLOAT32LE => "FLOAT32LE"@,
            SampleFormat::FLOAT64LE => "FLOAT64LE"@,
        }
    }

    open spec fn named(t: Seq<char>) -> Option<SampleFormat> {
        if t == "S16LE"@ {
            Some(SampleFormat::S16LE)
        } else if t == "S24LE"@ {
            Some(SampleFormat::S24LE)
        } else if t == "S24LE3"@ {
            Some(SampleFormat::S24LE3)
        } else if t == "S32LE"@ {
            Some(SampleFormat::S32LE)
        } else if t == "FLOAT32LE"@ {
            Some(SampleFormat::FLOAT32LE)
        } else if t == "FLOAT64LE"@ {
            Some(SampleFormat::FLOAT64LE)
        } else {
            None
        }
    }

    fn as_str(&self) -> (r: &'static str) {
        match self {
            SampleFormat::S16LE => "S16LE",
            SampleFormat::S24LE => "S24LE",
            SampleFormat::S24LE3 => "S24LE3",
            SampleFormat::S32LE => "S32LE",
            SampleFormat::FLOAT32LE => "FLOAT32LE",
            SampleFormat::FLOAT64LE => "FLOAT64LE",
        }
    }

    fn from_name(t: &str) -> (r: Option<SampleFormat>) {
        if same_text(t, "S16LE") {
            Some(SampleFormat::S16LE)
        } else if same_text(t, "S24LE") {
            Some(SampleFormat::S24LE)
        } else if same_text(t, "S24LE3") {
            Some(SampleFormat::S24LE3)
        } else if same_text(t, "S32LE") {
            Some(SampleFormat::S32LE)
        } else if same_text(t, "FLOAT32LE") {
            Some(SampleFormat::FLOAT32LE)
        } else if same_text(t, "FLOAT64LE") {
            Some(SampleFormat::FLOAT64LE)
        } else {
            None
        }
    }

    proof fn lemma_named(self) {
        reveal_strlit("S16LE");
        reveal_strlit("S24LE");
        reveal_strlit("S24LE3");
        reveal_strlit("S32LE");
        reveal_strlit("FLOAT32LE");
        reveal_strlit("FLOAT64LE");
        assert("S16LE"@.len() == 5 && "S16LE"@[1] == '1');
        assert("S24LE"@.len() == 5 && "S24LE"@[1] == '2');
        assert("S24LE3"@.len() == 6);
        assert("S32LE"@.len() == 5 && "S32LE"@[1] == '3');
        assert("FLOAT32LE"@.len() == 9 && "FLOAT32LE"@[5] == '3');
        assert("FLOAT64LE"@.len() == 9 && "FLOAT64LE"@[5] == '6');
    }
}

impl Schema for SampleFormat {
    open spec fn decode(n: NodeView) -> Result<SampleFormat, Fault> {
        decode_spelled::<SampleFormat>(n)
    }

    open spec fn encode(v: SampleFormat) -> NodeView {
        encode_spelled::<SampleFormat>(v)
    }

    fn from_node(n: &Node) -> (r: Result<SampleFormat, SchemaError>) {
        read_spelled::<SampleFormat>(n)
    }

    fn to_node(&self) -> (n: Node) {
        write_spelled::<SampleFormat>(self)
    }

    proof fn lemma_round_trip(v: SampleFormat) {
        lemma_spelled_round_trip::<SampleFormat>(v);
    }

    proof fn lemma_faithful(n: NodeView) {
        lemma_spelled_faithful::<SampleFormat>(n);
    }
}

/// The format of the coefficients in a file: text, or raw samples.
#[derive(Clone, Copy, Debug, PartialEq, Eq)]
pub enum FileFormat {
    TEXT,
    S16LE,
    S24LE,
    S24LE3,
    S32LE,
    FLOAT32LE,
    FLOAT64LE,
}

impl DeepView for FileFormat {
    type V = FileFormat;

    open spec fn deep_view(&self) -> FileFormat {
        *self
    }
}

impl Spelled for FileFormat {
    open spec fn name(self) -> Seq<char> {
        match self {
            FileFormat::TEXT => "TEXT"@,
            FileFormat::S16LE => "S16LE"@,
            FileFormat::S24LE => "S24LE"@,
            FileFormat::S24LE3 => "S24LE3"@,
            FileFormat::S32LE => "S32LE"@,
            FileFormat::FLOAT32LE => "FLOAT32LE"@,
            FileFormat::FLOAT64LE => "FLOAT64LE"@,
        }
    }

    open spec fn named(t: Seq<char>) -> Option<FileFormat> {
        if t == "TEXT"@ {
            Some(FileFormat::TEXT)
        } else if t == "S16LE"@ {
            Some(FileFormat::S16LE)
        } else if t == "S24LE"@ {
            Some(FileFormat::S24LE)
        } else if t == "S24LE3"@ {
            Some(FileFormat::S24LE3)
        } else if t == "S32LE"@ {
            Some(FileFormat::S32LE)
        } else if t == "FLOAT32LE"@ {
            Some(FileFormat::FLOAT32LE)
        } else if t == "FLOAT64LE"@ {
            Some(FileFormat::FLOAT64LE)
        } else {
            None
        }
    }

    fn as_str(&self) -> (r: &'static str) {
        match self {
            FileFormat::TEXT => "TEXT",
            FileFormat::S16LE => "S16LE",
            FileFormat::S24LE => "S24LE",
            FileFormat::S24LE3 => "S24LE3",
            FileFormat::S32LE => "S32LE",
            FileFormat::FLOAT32LE => "FLOAT32LE",
            FileFormat::FLOAT64LE => "FLOAT64LE",
        }
    }

    fn from_name(t: &str) -> (r: Option<FileFormat>) {
        if same_text(t, "TEXT") {
            Some(FileFormat::TEXT)
        } else if same_text(t, "S16LE") {
            Some(FileFormat::S16LE)
        } else if same_text(t, "S24LE") {
            Some(FileFormat::S24LE)
        } else if same_text(t, "S24LE3") {
            Some(FileFormat::S24LE3)
        } else if same_text(t, "S32LE") {
            Some(FileFormat::S32LE)
        } else if same_text(t, "FLOAT32LE") {
            Some(FileFormat::FLOAT32LE)
        } else if same_text(t, "FLOAT64LE") {
            Some(FileFormat::FLOAT64LE)
        } else {
            None
        }
    }

    proof fn lemma_named(self) {
        reveal_strlit("TEXT");
        reveal_strlit("S16LE");
        reveal_strlit("S24LE");
        reveal_strlit("S24LE3");
        reveal_strlit("S32LE");
        reveal_strlit("FLOAT32LE");
        reveal_strlit("FLOAT64LE");
        assert("TEXT"@.len() == 4);
        assert("S16LE"@.len() == 5 && "S16LE"@[1] == '1');
        assert("S24LE"@.len() == 5 && "S24LE"@[1] == '2');
        assert("S24LE3"@.len() == 6);
        assert("S32LE"@.len() == 5 && "S32LE"@[1] == '3');
        assert("FLOAT32LE"@.len() == 9 && "FLOAT32LE"@[5] == '3');
        assert("FLOAT64LE"@.len() == 9 && "FLOAT64LE"@[5] == '6');
    }
}

impl Schema for FileFormat {
    open spec fn decode(n: NodeView) -> Result<FileFormat, Fault> {
        decode_spelled::<FileFormat>(n)
    }

    open spec fn encode(v: FileFormat) -> NodeView {
        encode_spelled::<FileFormat>(v)
    }

    fn from_node(n: &Node) -> (r: Result<FileFormat, SchemaError>) {
        read_spelled::<FileFormat>(n)
    }

    fn to_node(&self) -> (n: Node) {
        write_spelled::<FileFormat>(self)
    }

    proof fn lemma_round_trip(v: FileFormat) {
        lemma_spelled_round_trip::<FileFormat>(v);
    }

    proof fn lemma_faithful(n: NodeView) {
        lemma_spelled_faithful::<FileFormat>(n);
    }
}

/// Whether a gain is a factor or a number of decibels.
#[derive(Clone, Copy, Debug, PartialEq, Eq)]
pub enum GainScale {
    /// Written `linear`.
    Linear,
    /// Written `dB`.
    Decibel,
}

impl DeepView for GainScale {
    type V = GainScale;

    open spec fn deep_view(&self) -> GainScale {
        *self
    }
}

impl Spelled for GainScale {
    open spec fn name(self) -> Seq<char> {
        match self {
            GainScale::Linear => "linear"@,
            GainScale::Decibel => "dB"@,
        }
    }

    open spec fn named(t: Seq<char>) -> Option<GainScale> {
        if t == "linear"@ {
            Some(GainScale::Linear)
        } else if t == "dB"@ {
            Some(GainScale::Decibel)
        } else {
            None
        }
    }

    fn as_str(&self) -> (r: &'static str) {
        match self {
            GainScale::Linear => "linear",
            GainScale::Decibel => "dB",
        }
    }

    fn from_name(t: &str) -> (r: Option<GainScale>) {
        if same_text(t, "linear") {
            Some(GainScale::Linear)
        } else if same_text(t, "dB") {
            Some(GainScale::Decibel)
        } else {
            None
        }
    }

    proof fn lemma_named(self) {
        reveal_strlit("linear");
        reveal_strlit("dB");
        assert("linear"@.len() == 6);
        assert("dB"@.len() == 2);
    }
}

impl Schema for GainScale {
    open spec fn decode(n: NodeView) -> Result<GainScale, Fault> {
        decode_spelled::<GainScale>(n)
    }

    open spec fn encode(v: GainScale) -> NodeView {
        encode_spelled::<GainScale>(v)
    }

    fn from_node(n: &Node) -> (r: Result<GainScale, SchemaError>) {
        read_spelled::<GainScale>(n)
    }

    fn to_node(&self) -> (n: Node) {
        write_spelled::<GainScale>(self)
    }

    proof fn lemma_round_trip(v: GainScale) {
        lemma_spelled_round_trip::<GainScale>(v);
    }

    proof fn lemma_faithful(n: NodeView) {
        lemma_spelled_faithful::<GainScale>(n);
    }
}

/// The unit of a delay.
#[derive(Clone, Copy, Debug, PartialEq, Eq)]
pub enum TimeUnit {
    /// Written `ms`.
    Milliseconds,
    /// Written `mm`.
    Millimetres,
    /// Written `samples`.
    Samples,
}

impl DeepView for TimeUnit {
    type V = TimeUnit;

    open spec fn deep_view(&self) -> TimeUnit {
        *self
    }
}

impl Spelled for TimeUnit {
    open spec fn name(self) -> Seq<char> {
        match self {
            TimeUnit::Milliseconds => "ms"@,
            TimeUnit::Millimetres => "mm"@,
            TimeUnit::Samples => "samples"@,
        }
    }

    open spec fn named(t: Seq<char>) -> Option<TimeUnit> {
        if t == "ms"@ {
            Some(TimeUnit::Milliseconds)
        } else if t == "mm"@ {
            Some(TimeUnit::Millimetres)
        } else if t == "samples"@ {
            Some(TimeUnit::Samples)
        } else {
            None
        }
    }

    fn as_str(&self) -> (r: &'static str) {
        match self {
            TimeUnit::Milliseconds => "ms",
            TimeUnit::Millimetres => "mm",
            TimeUnit::Samples => "samples",
        }
    }

    fn from_name(t: &str) -> (r: Option<TimeUnit>) {
        if same_text(t, "ms") {
            Some(TimeUnit::Milliseconds)
        } else if same_text(t, "mm") {
            Some(TimeUnit::Millimetres)
        } else if same_text(t, "samples") {
            Some(TimeUnit::Samples)
        } else {
            None
        }
    }

    proof fn lemma_named(self) {
        reveal_strlit("ms");
        reveal_strlit("mm");
        reveal_strlit("samples");
        assert("ms"@.len() == 2 && "ms"@[1] == 's');
        assert("mm"@.len() == 2 && "mm"@[1] == 'm');
        assert("samples"@.len() == 7);
    }
}

impl Schema for TimeUnit {
    open spec fn decode(n: NodeView) -> Result<TimeUnit, Fault> {
        decode_spelled::<TimeUnit>(n)
    }

    open spec fn encode(v: TimeUnit) -> NodeView {
        encode_spelled::<TimeUnit>(v)
    }

    fn from_node(n: &Node) -> (r: Result<TimeUnit, SchemaError>) {
        read_spelled::<TimeUnit>(n)
    }

    fn to_node(&self) -> (n: Node) {
        write_spelled::<TimeUnit>(self)
    }

    proof fn lemma_round_trip(v: TimeUnit) {
        lemma_spelled_round_trip::<TimeUnit>(v);
    }

    proof fn lemma_faithful(n: NodeView) {
        lemma_spelled_faithful::<TimeUnit>(n);
    }
}

/// The signal of a signal generator.
#[derive(Clone, Debug, PartialEq, Eq)]
pub enum Signal {
    Sine { freq: Numeral, level: Numeral },
    Square { freq: Numeral, level: Numeral },
    WhiteNoise { level: Numeral },
}

/// The mathematical value of a [`Signal`].
pub enum SignalView {
    Sine { freq: NumeralView, level: NumeralView },
    Square { freq: NumeralView, level: NumeralView },
    WhiteNoise { level: NumeralView },
}

/// The discriminants of [`Signal`].
#[derive(Clone, Copy, Debug, PartialEq, Eq)]
pub enum SignalKind {
    Sine,
    Square,
    WhiteNoise,
}

impl Spelled for SignalKind {
    open spec fn name(self) -> Seq<char> {
        match self {
            SignalKind::Sine => "Sine"@,
            SignalKind::Square => "Square"@,
            SignalKind::WhiteNoise => "WhiteNoise"@,
        }
    }

    open spec fn named(t: Seq<char>) -> Option<SignalKind> {
        if t == "Sine"@ {
            Some(SignalKind::Sine)
        } else if t == "Square"@ {
            Some(SignalKind::Square)
        } else if t == "WhiteNoise"@ {
            Some(SignalKind::WhiteNoise)
        } else {
            None
        }
    }

    fn as_str(&self) -> (r: &'static str) {
        match self {
            SignalKind::Sine => "Sine",
            SignalKind::Square => "Square",
            SignalKind::WhiteNoise => "WhiteNoise",
        }
    }

    fn from_name(t: &str) -> (r: Option<SignalKind>) {
        if same_text(t, "Sine") {
            Some(SignalKind::Sine)
        } else if same_text(t, "Square") {
            Some(SignalKind::Square)
        } else if same_text(t, "WhiteNoise") {
            Some(SignalKind::WhiteNoise)
        } else {
            None
        }
    }

    proof fn lemma_named(self) {
        reveal_strlit("Sine");
        reveal_strlit("Square");
        reveal_strlit("WhiteNoise");
        assert("Sine"@.len() == 4);
        assert("Square"@.len() == 6);
        assert("WhiteNoise"@.len() == 10);
    }
}

impl DeepView for Signal {
    type V = SignalView;

    open spec fn deep_view(&self) -> SignalView {
        match self {
            Signal::Sine { freq, level } => SignalView::Sine {
                freq: freq.deep_view(),
                level: level.deep_view(),
            },
            Signal::Square { freq, level } => SignalView::Square {
                freq: freq.deep_view(),
                level: level.deep_view(),
            },
            Signal::WhiteNoise { level } => SignalView::WhiteNoise { level: level.deep_view() },
        }
    }
}

impl Signal {
    /// The keys that a variant with the fields `freq`, `level` declares.
    pub open spec fn names_freq_level() -> Seq<Seq<char>> {
        seq!["freq"@, "level"@]
    }

    /// The keys of a variant with the fields `freq`, `level` are distinct, and none is the key of a discriminant.
    pub proof fn lemma_names_freq_level()
        ensures
            Self::names_freq_level().no_duplicates(),
            !Self::names_freq_level().contains(tag_key()),
    {
        reveal_strlit("type");
        reveal_strlit("freq");
        reveal_strlit("level");
        assert("type"@.len() == 4 && "type"@[0] == 't');
        assert("freq"@.len() == 4 && "freq"@[0] == 'f');
        assert("level"@.len() == 5);
    }

    /// What a variant with the fields `freq`, `level` writes: one slot for each field.
    pub open spec fn slots_freq_level(freq: NumeralView, level: NumeralView) -> Seq<Slot> {
        seq![
            slot::<Numeral>("freq"@, freq),
            slot::<Numeral>("level"@, level),
        ]
    }

    /// What entries stand for, read as a variant with the fields `freq`, `level`.
    pub open spec fn decode_freq_level(m: Entries) -> Result<(NumeralView, NumeralView), Fault> {
        let freq = required::<Numeral>(m, "freq"@);
        let level = required::<Numeral>(m, "level"@);
        if let Some(e) = unknown_field(m, Self::names_freq_level()) {
            Err(e)
        } else if freq is Err {
            Err(freq->Err_0)
        } else if level is Err {
            Err(level->Err_0)
        } else {
            Ok((freq->Ok_0, level->Ok_0))
        }
    }

    /// Reads a variant with the fields `freq`, `level`.
    pub fn read_freq_level(f: &Fields) -> (r: Result<(Numeral, Numeral), SchemaError>)
        ensures
            r matches Ok(x) ==> Self::decode_freq_level(f@) == Ok::<(NumeralView, NumeralView), Fault>(x.deep_view()),
            r matches Err(e) ==> Self::decode_freq_level(f@) == Err::<(NumeralView, NumeralView), Fault>(e.deep_view()),
    {
        let known = vec!["freq", "level"];
        proof {
            assert(texts(known@) =~= Self::names_freq_level());
        }
        f.deny_unknown(&known)?;
        let freq = f.required::<Numeral>("freq")?;
        let level = f.required::<Numeral>("level")?;
        Ok((freq, level))
    }

    /// Writes the fields of a variant with the fields `freq`, `level` after what `w` holds.
    pub fn write_freq_level(w: Writer, freq: &Numeral, level: &Numeral) -> (r: Writer)
        ensures
            r.slots() == w.slots() + Self::slots_freq_level(freq.deep_view(), level.deep_view()),
    {
        let ghost before = w.slots();
        let w = w.put::<Numeral>("freq", freq);
        let w = w.put::<Numeral>("level", level);
        proof {
            assert(w.slots() =~= before + Self::slots_freq_level(freq.deep_view(), level.deep_view()));
        }
        w
    }

    /// Reading what a variant with the fields `freq`, `level` wrote gives the fields back.
    pub proof fn lemma_freq_level(freq: NumeralView, level: NumeralView)
        ensures
            distinct_names(Self::slots_freq_level(freq, level)),
            !names_slot(Self::slots_freq_level(freq, level), tag_key()),
            Self::decode_freq_level(present(Self::slots_freq_level(freq, level))) == Ok::<(NumeralView, NumeralView), Fault>(
                (freq, level),
            ),
    {
        Self::lemma_names_freq_level();
        let s = Self::slots_freq_level(freq, level);
        lemma_slot_names(s, Self::names_freq_level());
        lemma_present_known(s, Self::names_freq_level());
        lemma_required::<Numeral>(s, 0, "freq"@, freq);
        lemma_required::<Numeral>(s, 1, "level"@, level);
    }

    /// What a variant with the fields `freq`, `level` writes is like any entries that its fields were read from.
    pub proof fn lemma_like_freq_level(m: Entries)
        requires
            distinct_keys(m),
        ensures
            Self::decode_freq_level(m) matches Ok((freq, level)) ==> alike_entries(
                m,
                present(Self::slots_freq_level(freq, level)),
            ),
    {
        if let Ok((freq, level)) = Self::decode_freq_level(m) {
            Self::lemma_names_freq_level();
            lemma_unknown_field(m, Self::names_freq_level());
            let s = lemma_matched_none(m);
            let s = lemma_matched_required::<Numeral>(m, s, "freq"@, freq);
            let s = lemma_matched_required::<Numeral>(m, s, "level"@, level);
            assert(s =~= Self::slots_freq_level(freq, level));
            lemma_slot_names(s, Self::names_freq_level());
            lemma_alike_slots(m, s, Self::names_freq_level());
        }
    }

    /// The keys that the variant `WhiteNoise` declares.
    pub open spec fn names_white_noise() -> Seq<Seq<char>> {
        seq!["level"@]
    }

    /// The keys of the variant `WhiteNoise` are distinct, and none is the key of a discriminant.
    pub proof fn lemma_names_white_noise()
        ensures
            Self::names_white_noise().no_duplicates(),
            !Self::names_white_noise().contains(tag_key()),
    {
        reveal_strlit("type");
        reveal_strlit("level");
        assert("type"@.len() == 4);
        assert("level"@.len() == 5);
    }

    /// What the variant `WhiteNoise` writes: one slot for each field.
    pub open spec fn slots_white_noise(level: NumeralView) -> Seq<Slot> {
        seq![
            slot::<Numeral>("level"@, level),
        ]
    }

    /// What entries stand for, read as the variant `WhiteNoise`.
    pub open spec fn decode_white_noise(m: Entries) -> Result<SignalView, Fault> {
        let level = required::<Numeral>(m, "level"@);
        if let Some(e) = unknown_field(m, Self::names_white_noise()) {
            Err(e)
        } else if level is Err {
            Err(level->Err_0)
        } else {
            Ok(SignalView::WhiteNoise { level: level->Ok_0 })
        }
    }

    /// Reads the variant `WhiteNoise`.
    pub fn read_white_noise(f: &Fields) -> (r: Result<Signal, SchemaError>)
        ensures
            r matches Ok(x) ==> Self::decode_white_noise(f@) == Ok::<SignalView, Fault>(x.deep_view()),
            r matches Err(e) ==> Self::decode_white_noise(f@) == Err::<SignalView, Fault>(e.deep_view()),
    {
        let known = vec!["level"];
        proof {
            assert(texts(known@) =~= Self::names_white_noise());
        }
        f.deny_unknown(&known)?;
        let level = f.required::<Numeral>("level")?;
        Ok(Signal::WhiteNoise { level })
    }

    /// Writes the fields of the variant `WhiteNoise` after what `w` holds.
    pub fn write_white_noise(w: Writer, level: &Numeral) -> (r: Writer)
        ensures
            r.slots() == w.slots() + Self::slots_white_noise(level.deep_view()),
    {
        let ghost before = w.slots();
        let w = w.put::<Numeral>("level", level);
        proof {
            assert(w.slots() =~= before + Self::slots_white_noise(level.deep_view()));
        }
        w
    }

    /// Reading what the variant `WhiteNoise` wrote gives the fields back.
    pub proof fn lemma_white_noise(level: NumeralView)
        ensures
            distinct_names(Self::slots_white_noise(level)),
            !names_slot(Self::slots_white_noise(level), tag_key()),
            Self::decode_white_noise(present(Self::slots_white_noise(level))) == Ok::<SignalView, Fault>(
                SignalView::WhiteNoise { level: level },
            ),
    {
        Self::lemma_names_white_noise();
        let s = Self::slots_white_noise(level);
        lemma_slot_names(s, Self::names_white_noise());
        lemma_present_known(s, Self::names_white_noise());
        lemma_required::<Numeral>(s, 0, "level"@, level);
    }

    /// What the variant `WhiteNoise` writes is like any entries that its fields were read from.
    pub proof fn lemma_like_white_noise(m: Entries)
        requires
            distinct_keys(m),
        ensures
            Self::decode_white_noise(m) matches Ok(SignalView::WhiteNoise { level }) ==> alike_entries(
                m,
                present(Self::slots_white_noise(level)),
            ),
    {
        if let Ok(SignalView::WhiteNoise { level }) = Self::decode_white_noise(m) {
            Self::lemma_names_white_noise();
            lemma_unknown_field(m, Self::names_white_noise());
            let s = lemma_matched_none(m);
            let s = lemma_matched_required::<Numeral>(m, s, "level"@, level);
            assert(s =~= Self::slots_white_noise(level));
            lemma_slot_names(s, Self::names_white_noise());
            lemma_alike_slots(m, s, Self::names_white_noise());
        }
    }

    /// The discriminant of a value.
    pub open spec fn kind_of(v: SignalView) -> SignalKind {
        match v {
            SignalView::Sine { .. } => SignalKind::Sine,
            SignalView::Square { .. } => SignalKind::Square,
            SignalView::WhiteNoise { .. } => SignalKind::WhiteNoise,
        }
    }

    /// What a value writes beside its discriminant.
    pub open spec fn variant_slots(v: SignalView) -> Seq<Slot> {
        match v {
            SignalView::Sine { freq, level } => Self::slots_freq_level(freq, level),
            SignalView::Square { freq, level } => Self::slots_freq_level(freq, level),
            SignalView::WhiteNoise { level } => Self::slots_white_noise(level),
        }
    }

    /// The value that entries stand for, read as the variant that `k` selects.
    pub open spec fn decode_variant(k: SignalKind, m: Entries) -> Result<SignalView, Fault> {
        match k {
            SignalKind::Sine => match Self::decode_freq_level(m) {
                Ok((freq, level)) => Ok(SignalView::Sine { freq, level }),
                Err(e) => Err(e),
            },
            SignalKind::Square => match Self::decode_freq_level(m) {
                Ok((freq, level)) => Ok(SignalView::Square { freq, level }),
                Err(e) => Err(e),
            },
            SignalKind::WhiteNoise => Self::decode_white_noise(m),
        }
    }
}

impl Schema for Signal {
    open spec fn decode(n: NodeView) -> Result<SignalView, Fault> {
        decode_tagged(n, |k: SignalKind, m: Entries| Self::decode_variant(k, m))
    }

    open spec fn encode(v: SignalView) -> NodeView {
        tagged_node(Self::kind_of(v).name(), Self::variant_slots(v))
    }

    fn from_node(n: &Node) -> (r: Result<Signal, SchemaError>) {
        let f = Fields::of(n)?;
        let (k, rest) = f.tagged::<SignalKind>()?;
        match k {
            SignalKind::Sine => match Self::read_freq_level(&rest) {
                Ok((freq, level)) => Ok(Signal::Sine { freq, level }),
                Err(e) => Err(e),
            },
            SignalKind::Square => match Self::read_freq_level(&rest) {
                Ok((freq, level)) => Ok(Signal::Square { freq, level }),
                Err(e) => Err(e),
            },
            SignalKind::WhiteNoise => Self::read_white_noise(&rest),
        }
    }

    fn to_node(&self) -> (n: Node) {
        let ghost v = self.deep_view();
        let w = Writer::tagged(&self.kind());
        let w = match self {
            Signal::Sine { freq, level } => Self::write_freq_level(w, freq, level),
            Signal::Square { freq, level } => Self::write_freq_level(w, freq, level),
            Signal::WhiteNoise { level } => Self::write_white_noise(w, level),
        };
        w.finish()
    }

    proof fn lemma_round_trip(v: SignalView) {
        Self::lemma_variant(v);
        lemma_tagged_round_trip(
            Self::kind_of(v),
            Self::variant_slots(v),
            |k: SignalKind, m: Entries| Self::decode_variant(k, m),
        );
    }

    proof fn lemma_faithful(n: NodeView) {
        if is_record(n) {
            if let Ok(k) = tag_of::<SignalKind>(entries(n)) {
                lemma_untagged_distinct::<SignalKind>(n);
                Self::lemma_variant_like(k, untagged(entries(n)));
                if let Ok(v) = Self::decode_variant(k, untagged(entries(n))) {
                    Self::lemma_variant(v);
                    lemma_tagged_faithful(n, k, Self::variant_slots(v));
                }
            }
        }
    }
}

impl Signal {
    /// Reading what a value writes beside its discriminant, as the variant of
    /// the value, gives the value back; its slots have distinct names, none of
    /// them the key of the discriminant.
    pub proof fn lemma_variant(v: SignalView)
        ensures
            distinct_names(Self::variant_slots(v)),
            !names_slot(Self::variant_slots(v), tag_key()),
            Self::decode_variant(Self::kind_of(v), present(Self::variant_slots(v))) == Ok::<SignalView, Fault>(v),
    {
        match v {
            SignalView::Sine { freq, level } => {
                Self::lemma_freq_level(freq, level);
            },
            SignalView::Square { freq, level } => {
                Self::lemma_freq_level(freq, level);
            },
            SignalView::WhiteNoise { level } => {
                Self::lemma_white_noise(level);
            },
        }
    }

    /// What a value writes beside its discriminant is like any entries that
    /// the value was read from as the variant that `k` selects; and the value
    /// is of that variant.
    pub proof fn lemma_variant_like(k: SignalKind, m: Entries)
        requires
            distinct_keys(m),
        ensures
            Self::decode_variant(k, m) matches Ok(v) ==> Self::kind_of(v) == k && alike_entries(
                m,
                present(Self::variant_slots(v)),
            ),
    {
        match k {
            SignalKind::Sine => {
                Self::lemma_like_freq_level(m);
            },
            SignalKind::Square => {
                Self::lemma_like_freq_level(m);
            },
            SignalKind::WhiteNoise => {
                Self::lemma_like_white_noise(m);
            },
        }
    }

    /// The discriminant of the value.
    pub fn kind(&self) -> (k: SignalKind)
        ensures
            k == Self::kind_of(self.deep_view()),
    {
        match self {
            Signal::Sine { .. } => SignalKind::Sine,
            Signal::Square { .. } => SignalKind::Square,
            Signal::WhiteNoise { .. } => SignalKind::WhiteNoise,
        }
    }
}

/// The fader that a volume filter follows.
#[derive(Clone, Copy, Debug, PartialEq, Eq)]
pub enum VolumeFader {
    Aux1,
    Aux2,
    Aux3,
    Aux4,
}

impl DeepView for VolumeFader {
    type V = VolumeFader;

    open spec fn deep_view(&self) -> VolumeFader {
        *self
    }
}

impl Spelled for VolumeFader {
    open spec fn name(self) -> Seq<char> {
        match self {
            VolumeFader::Aux1 => "Aux1"@,
            VolumeFader::Aux2 => "Aux2"@,
            VolumeFader::Aux3 => "Aux3"@,
            VolumeFader::Aux4 => "Aux4"@,
        }
    }

    open spec fn named(t: Seq<char>) -> Option<VolumeFader> {
        if t == "Aux1"@ {
            Some(VolumeFader::Aux1)
        } else if t == "Aux2"@ {
            Some(VolumeFader::Aux2)
        } else if t == "Aux3"@ {
            Some(VolumeFader::Aux3)
        } else if t == "Aux4"@ {
            Some(VolumeFader::Aux4)
        } else {
            None
        }
    }

    fn as_str(&self) -> (r: &'static str) {
        match self {
            VolumeFader::Aux1 => "Aux1",
            VolumeFader::Aux2 => "Aux2",
            VolumeFader::Aux3 => "Aux3",
            VolumeFader::Aux4 => "Aux4",
        }
    }

    fn from_name(t: &str) -> (r: Option<VolumeFader>) {
        if same_text(t, "Aux1") {
            Some(VolumeFader::Aux1)
        } else if same_text(t, "Aux2") {
            Some(VolumeFader::Aux2)
        } else if same_text(t, "Aux3") {
            Some(VolumeFader::Aux3)
        } else if same_text(t, "Aux4") {
            Some(VolumeFader::Aux4)
        } else {
            None
        }
    }

    proof fn lemma_named(self) {
        reveal_strlit("Aux1");
        reveal_strlit("Aux2");
        reveal_strlit("Aux3");
        reveal_strlit("Aux4");
        assert("Aux1"@.len() == 4 && "Aux1"@[3] == '1');
        assert("Aux2"@.len() == 4 && "Aux2"@[3] == '2');
        assert("Aux3"@.len() == 4 && "Aux3"@[3] == '3');
        assert("Aux4"@.len() == 4 && "Aux4"@[3] == '4');
    }
}

impl Schema for VolumeFader {
    open spec fn decode(n: NodeView) -> Result<VolumeFader, Fault> {
        decode_spelled::<VolumeFader>(n)
    }

    open spec fn encode(v: VolumeFader) -> NodeView {
        encode_spelled::<VolumeFader>(v)
    }

    fn from_node(n: &Node) -> (r: Result<VolumeFader, SchemaError>) {
        read_spelled::<VolumeFader>(n)
    }

    fn to_node(&self) -> (n: Node) {
        write_spelled::<VolumeFader>(self)
    }

    proof fn lemma_round_trip(v: VolumeFader) {
        lemma_spelled_round_trip::<VolumeFader>(v);
    }

    proof fn lemma_faithful(n: NodeView) {
        lemma_spelled_faithful::<VolumeFader>(n);
    }
}

/// The fader that a loudness filter follows.
#[derive(Clone, Copy, Debug, PartialEq, Eq)]
pub enum LoudnessFader {
    Main,
    Aux1,
    Aux2,
    Aux3,
    Aux4,
}

impl DeepView for LoudnessFader {
    type V = LoudnessFader;

    open spec fn deep_view(&self) -> LoudnessFader {
        *self
    }
}

impl Spelled for LoudnessFader {
    open spec fn name(self) -> Seq<char> {
        match self {
            LoudnessFader::Main => "Main"@,
            LoudnessFader::Aux1 => "Aux1"@,
            LoudnessFader::Aux2 => "Aux2"@,
            LoudnessFader::Aux3 => "Aux3"@,
            LoudnessFader::Aux4 => "Aux4"@,
        }
    }

    open spec fn named(t: Seq<char>) -> Option<LoudnessFader> {
        if t == "Main"@ {
            Some(LoudnessFader::Main)
        } else if t == "Aux1"@ {
            Some(LoudnessFader::Aux1)
        } else if t == "Aux2"@ {
            Some(LoudnessFader::Aux2)
        } else if t == "Aux3"@ {
            Some(LoudnessFader::Aux3)
        } else if t == "Aux4"@ {
            Some(LoudnessFader::Aux4)
        } else {
            None
        }
    }

    fn as_str(&self) -> (r: &'static str) {
        match self {
            LoudnessFader::Main => "Main",
            LoudnessFader::Aux1 => "Aux1",
            LoudnessFader::Aux2 => "Aux2",
            LoudnessFader::Aux3 => "Aux3",
            LoudnessFader::Aux4 => "Aux4",
        }
    }

    fn from_name(t: &str) -> (r: Option<LoudnessFader>) {
        if same_text(t, "Main") {
            Some(LoudnessFader::Main)
        } else if same_text(t, "Aux1") {
            Some(LoudnessFader::Aux1)
        } else if same_text(t, "Aux2") {
            Some(LoudnessFader::Aux2)
        } else if same_text(t, "Aux3") {
            Some(LoudnessFader::Aux3)
        } else if same_text(t, "Aux4") {
            Some(LoudnessFader::Aux4)
        } else {
            None
        }
    }

    proof fn lemma_named(self) {
        reveal_strlit("Main");
        reveal_strlit("Aux1");
        reveal_strlit("Aux2");
        reveal_strlit("Aux3");
        reveal_strlit("Aux4");
        assert("Main"@.len() == 4 && "Main"@[0] == 'M');
        assert("Aux1"@.len() == 4 && "Aux1"@[0] == 'A' && "Aux1"@[3] == '1');
        assert("Aux2"@.len() == 4 && "Aux2"@[0] == 'A' && "Aux2"@[3] == '2');
        assert("Aux3"@.len() == 4 && "Aux3"@[0] == 'A' && "Aux3"@[3] == '3');
        assert("Aux4"@.len() == 4 && "Aux4"@[0] == 'A' && "Aux4"@[3] == '4');
    }
}

impl Schema for LoudnessFader {
    open spec fn decode(n: NodeView) -> Result<LoudnessFader, Fault> {
        decode_spelled::<LoudnessFader>(n)
    }

    open spec fn encode(v: LoudnessFader) -> NodeView {
        encode_spelled::<LoudnessFader>(v)
    }

    fn from_node(n: &Node) -> (r: Result<LoudnessFader, SchemaError>) {
        read_spelled::<LoudnessFader>(n)
    }

    fn to_node(&self) -> (n: Node) {
        write_spelled::<LoudnessFader>(self)
    }

    proof fn lemma_round_trip(v: LoudnessFader) {
        lemma_spelled_round_trip::<LoudnessFader>(v);
    }

    proof fn lemma_faithful(n: NodeView) {
        lemma_spelled_faithful::<LoudnessFader>(n);
    }
}

} // verus!
