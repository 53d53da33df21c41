//! How the sample rate is converted.

use vstd::prelude::*;
use crate::composite::Record;
use crate::error::{Fault, SchemaError};
use crate::fields::{texts, Fields, Writer};
use crate::likeness::{
    alike_entries, lemma_alike_slots, lemma_matched_none, lemma_matched_optional,
    lemma_matched_required, lemma_tagged_faithful, lemma_untagged_distinct,
};
use crate::node::{Node, NodeView, Numeral, NumeralView};
use crate::record::{
    decode_tagged, distinct_keys, distinct_names, entries, field, fits, has_key, is_record,
    lemma_has_field, lemma_optional, lemma_present, lemma_present_known, lemma_required,
    lemma_slot_names, lemma_tagged_round_trip, lemma_unknown_field, names_slot, optional, present,
    required, slot, slot_opt, tag_key, tag_of, tagged_node, unknown_field, untagged, Entries, Slot,
};
use crate::schema::Schema;
use crate::spelling::{
    decode_spelled, encode_spelled, lemma_spelled_faithful, lemma_spelled_round_trip, read_spelled,
    write_spelled, Spelled,
};
use crate::text::same_text;

verus! {

/// How a sinc resampler interpolates between the points of its table.
#[derive(Clone, Copy, Debug, PartialEq, Eq)]
pub enum AsyncSincInterpolation {
    Nearest,
    Linear,
    Quadratic,
    Cubic,
}

impl DeepView for AsyncSincInterpolation {
    type V = AsyncSincInterpolation;

    open spec fn deep_view(&self) -> AsyncSincInterpolation {
        *self
    }
}

impl Spelled for AsyncSincInterpolation {
    open spec fn name(self) -> Seq<char> {
        match self {
            AsyncSincInterpolation::Nearest => "Nearest"@,
            AsyncSincInterpolation::Linear => "Linear"@,
            AsyncSincInterpolation::Quadratic => "Quadratic"@,
            AsyncSincInterpolation::Cubic => "Cubic"@,
        }
    }

    open spec fn named(t: Seq<char>) -> Option<AsyncSincInterpolation> {
        if t == "Nearest"@ {
            Some(AsyncSincInterpolation::Nearest)
        } else if t == "Linear"@ {
            Some(AsyncSincInterpolation::Linear)
        } else if t == "Quadratic"@ {
            Some(AsyncSincInterpolation::Quadratic)
        } else if t == "Cubic"@ {
            Some(AsyncSincInterpolation::Cubic)
        } else {
            None
        }
    }

    fn as_str(&self) -> (r: &'static str) {
        match self {
            AsyncSincInterpolation::Nearest => "Nearest",
            AsyncSincInterpolation::Linear => "Linear",
            AsyncSincInterpolation::Quadratic => "Quadratic",
            AsyncSincInterpolation::Cubic => "Cubic",
        }
    }

    fn from_name(t: &str) -> (r: Option<AsyncSincInterpolation>) {
        if same_text(t, "Nearest") {
            Some(AsyncSincInterpolation::Nearest)
        } else if same_text(t, "Linear") {
            Some(AsyncSincInterpolation::Linear)
        } else if same_text(t, "Quadratic") {
            Some(AsyncSincInterpolation::Quadratic)
        } else if same_text(t, "Cubic") {
            Some(AsyncSincInterpolation::Cubic)
        } else {
            None
        }
    }

    proof fn lemma_named(self) {
        reveal_strlit("Nearest");
        reveal_strlit("Linear");
        reveal_strlit("Quadratic");
        reveal_strlit("Cubic");
        assert("Nearest"@.len() == 7);
        assert("Linear"@.len() == 6);
        assert("Quadratic"@.len() == 9);
        assert("Cubic"@.len() == 5);
    }
}

impl Schema for AsyncSincInterpolation {
    open spec fn decode(n: NodeView) -> Result<AsyncSincInterpolation, Fault> {
        decode_spelled::<AsyncSincInterpolation>(n)
    }

    open spec fn encode(v: AsyncSincInterpolation) -> NodeView {
        encode_spelled::<AsyncSincInterpolation>(v)
    }

    fn from_node(n: &Node) -> (r: Result<AsyncSincInterpolation, SchemaError>) {
        read_spelled::<AsyncSincInterpolation>(n)
    }

    fn to_node(&self) -> (n: Node) {
        write_spelled::<AsyncSincInterpolation>(self)
    }

    proof fn lemma_round_trip(v: AsyncSincInterpolation) {
        lemma_spelled_round_trip::<AsyncSincInterpolation>(v);
    }

    proof fn lemma_faithful(n: NodeView) {
        lemma_spelled_faithful::<AsyncSincInterpolation>(n);
    }
}

/// A named quality of a sinc resampler.
#[derive(Clone, Copy, Debug, PartialEq, Eq)]
pub enum AsyncSincProfile {
    VeryFast,
    Fast,
    Balanced,
    Accurate,
}

impl DeepView for AsyncSincProfile {
    type V = AsyncSincProfile;

    open spec fn deep_view(&self) -> AsyncSincProfile {
        *self
    }
}

impl Spelled for AsyncSincProfile {
    open spec fn name(self) -> Seq<char> {
        match self {
            AsyncSincProfile::VeryFast => "VeryFast"@,
            AsyncSincProfile::Fast => "Fast"@,
            AsyncSincProfile::Balanced => "Balanced"@,
            AsyncSincProfile::Accurate => "Accurate"@,
        }
    }

    open spec fn named(t: Seq<char>) -> Option<AsyncSincProfile> {
        if t == "VeryFast"@ {
            Some(AsyncSincProfile::VeryFast)
        } else if t == "Fast"@ {
            Some(AsyncSincProfile::Fast)
        } else if t == "Balanced"@ {
            Some(AsyncSincProfile::Balanced)
        } else if t == "Accurate"@ {
            Some(AsyncSincProfile::Accurate)
        } else {
            None
        }
    }

    fn as_str(&self) -> (r: &'static str) {
        match self {
            AsyncSincProfile::VeryFast => "VeryFast",
            AsyncSincProfile::Fast => "Fast",
            AsyncSincProfile::Balanced => "Balanced",
            AsyncSincProfile::Accurate => "Accurate",
        }
    }

    fn from_name(t: &str) -> (r: Option<AsyncSincProfile>) {
        if same_text(t, "VeryFast") {
            Some(AsyncSincProfile::VeryFast)
        } else if same_text(t, "Fast") {
            Some(AsyncSincProfile::Fast)
        } else if same_text(t, "Balanced") {
            Some(AsyncSincProfile::Balanced)
        } else if same_text(t, "Accurate") {
            Some(AsyncSincProfile::Accurate)
        } else {
            None
        }
    }

    proof fn lemma_named(self) {
        reveal_strlit("VeryFast");
        reveal_strlit("Fast");
        reveal_strlit("Balanced");
        reveal_strlit("Accurate");
        assert("VeryFast"@.len() == 8 && "VeryFast"@[0] == 'V');
        assert("Fast"@.len() == 4);
        assert("Balanced"@.len() == 8 && "Balanced"@[0] == 'B');
        assert("Accurate"@.len() == 8 && "Accurate"@[0] == 'A');
    }
}

impl Schema for AsyncSincProfile {
    open spec fn decode(n: NodeView) -> Result<AsyncSincProfile, Fault> {
        decode_spelled::<AsyncSincProfile>(n)
    }

    open spec fn encode(v: AsyncSincProfile) -> NodeView {
        encode_spelled::<AsyncSincProfile>(v)
    }

    fn from_node(n: &Node) -> (r: Result<AsyncSincProfile, SchemaError>) {
        read_spelled::<AsyncSincProfile>(n)
    }

    fn to_node(&self) -> (n: Node) {
        write_spelled::<AsyncSincProfile>(self)
    }

    proof fn lemma_round_trip(v: AsyncSincProfile) {
        lemma_spelled_round_trip::<AsyncSincProfile>(v);
    }

    proof fn lemma_faithful(n: NodeView) {
        lemma_spelled_faithful::<AsyncSincProfile>(n);
    }
}

/// The window of a sinc resampler.
#[derive(Clone, Copy, Debug, PartialEq, Eq)]
pub enum AsyncSincWindow {
    Hann,
    Hann2,
    Blackman,
    Blackman2,
    BlackmanHarris,
    BlackmanHarris2,
}

impl DeepView for AsyncSincWindow {
    type V = AsyncSincWindow;

    open spec fn deep_view(&self) -> AsyncSincWindow {
        *self
    }
}

impl Spelled for AsyncSincWindow {
    open spec fn name(self) -> Seq<char> {
        match self {
            AsyncSincWindow::Hann => "Hann"@,
            AsyncSincWindow::Hann2 => "Hann2"@,
            AsyncSincWindow::Blackman => "Blackman"@,
            AsyncSincWindow::Blackman2 => "Blackman2"@,
            AsyncSincWindow::BlackmanHarris => "BlackmanHarris"@,
            AsyncSincWindow::BlackmanHarris2 => "BlackmanHarris2"@,
        }
    }

    open spec fn named(t: Seq<char>) -> Option<AsyncSincWindow> {
        if t == "Hann"@ {
            Some(AsyncSincWindow::Hann)
        } else if t == "Hann2"@ {
            Some(AsyncSincWindow::Hann2)
        } else if t == "Blackman"@ {
            Some(AsyncSincWindow::Blackman)
        } else if t == "Blackman2"@ {
            Some(AsyncSincWindow::Blackman2)
        } else if t == "BlackmanHarris"@ {
            Some(AsyncSincWindow::BlackmanHarris)
        } else if t == "BlackmanHarris2"@ {
            Some(AsyncSincWindow::BlackmanHarris2)
        } else {
            None
        }
    }

    fn as_str(&self) -> (r: &'static str) {
        match self {
            AsyncSincWindow::Hann => "Hann",
            AsyncSincWindow::Hann2 => "Hann2",
            AsyncSincWindow::Blackman => "Blackman",
            AsyncSincWindow::Blackman2 => "Blackman2",
            AsyncSincWindow::BlackmanHarris => "BlackmanHarris",
            AsyncSincWindow::BlackmanHarris2 => "BlackmanHarris2",
        }
    }

    fn from_name(t: &str) -> (r: Option<AsyncSincWindow>) {
        if same_text(t, "Hann") {
            Some(AsyncSincWindow::Hann)
        } else if same_text(t, "Hann2") {
            Some(AsyncSincWindow::Hann2)
        } else if same_text(t, "Blackman") {
            Some(AsyncSincWindow::Blackman)
        } else if same_text(t, "Blackman2") {
            Some(AsyncSincWindow::Blackman2)
        } else if same_text(t, "BlackmanHarris") {
            Some(AsyncSincWindow::BlackmanHarris)
        } else if same_text(t, "BlackmanHarris2") {
            Some(AsyncSincWindow::BlackmanHarris2)
        } else {
            None
        }
    }

    proof fn lemma_named(self) {
        reveal_strlit("Hann");
        reveal_strlit("Hann2");
        reveal_strlit("Blackman");
        reveal_strlit("Blackman2");
        reveal_strlit("BlackmanHarris");
        reveal_strlit("BlackmanHarris2");
        assert("Hann"@.len() == 4);
        assert("Hann2"@.len() == 5);
        assert("Blackman"@.len() == 8);
        assert("Blackman2"@.len() == 9);
        assert("BlackmanHarris"@.len() == 14);
        assert("BlackmanHarris2"@.len() == 15);
    }
}

impl Schema for AsyncSincWindow {
    open spec fn decode(n: NodeView) -> Result<AsyncSincWindow, Fault> {
        decode_spelled::<AsyncSincWindow>(n)
    }

    open spec fn encode(v: AsyncSincWindow) -> NodeView {
        encode_spelled::<AsyncSincWindow>(v)
    }

    fn from_node(n: &Node) -> (r: Result<AsyncSincWindow, SchemaError>) {
        read_spelled::<AsyncSincWindow>(n)
    }

    fn to_node(&self) -> (n: Node) {
        write_spelled::<AsyncSincWindow>(self)
    }

    proof fn lemma_round_trip(v: AsyncSincWindow) {
        lemma_spelled_round_trip::<AsyncSincWindow>(v);
    }

    proof fn lemma_faithful(n: NodeView) {
        lemma_spelled_faithful::<AsyncSincWindow>(n);
    }
}

/// A sinc resampler, given by a named quality or in full.
#[derive(Clone, Debug, PartialEq, Eq)]
pub enum AsyncSincParameters {
    Profile { profile: AsyncSincProfile },
    Free {
        sinc_len: usize,
        interpolation: AsyncSincInterpolation,
        window: AsyncSincWindow,
        f_cutoff: Option<Numeral>,
        oversampling_factor: usize,
    },
}

/// The mathematical value of a [`AsyncSincParameters`].
pub enum AsyncSincParametersView {
    Profile { profile: AsyncSincProfile },
    Free {
        sinc_len: usize,
        interpolation: AsyncSincInterpolation,
        window: AsyncSincWindow,
        f_cutoff: Option<NumeralView>,
        oversampling_factor: usize,
    },
}

impl DeepView for AsyncSincParameters {
    type V = AsyncSincParametersView;

    open spec fn deep_view(&self) -> AsyncSincParametersView {
        match self {
            AsyncSincParameters::Profile { profile } => AsyncSincParametersView::Profile {
                profile: profile.deep_view(),
            },
            AsyncSincParameters::Free { sinc_len, interpolation, window, f_cutoff, oversampling_factor } => AsyncSincParametersView::Free {
                sinc_len: sinc_len.deep_view(),
                interpolation: interpolation.deep_view(),
                window: window.deep_view(),
                f_cutoff: f_cutoff.deep_view(),
                oversampling_factor: oversampling_factor.deep_view(),
            },
        }
    }
}

impl AsyncSincParameters {
    /// The keys that the variant `Profile` declares.
    pub open spec fn names_profile() -> Seq<Seq<char>> {
        seq!["profile"@]
    }

    /// The keys that the variant `Profile` declares.
    pub fn field_names_profile() -> (r: Vec<&'static str>)
        ensures
            texts(r@) == Self::names_profile(),
    {
        let r = vec!["profile"];
        proof {
            assert(texts(r@) =~= Self::names_profile());
        }
        r
    }

    /// The keys that the variant `Profile` cannot do without.
    pub open spec fn needed_profile() -> Seq<Seq<char>> {
        seq!["profile"@]
    }

    /// The keys that the variant `Profile` cannot do without.
    pub fn needed_names_profile() -> (r: Vec<&'static str>)
        ensures
            texts(r@) == Self::needed_profile(),
    {
        let r = vec!["profile"];
        proof {
            assert(texts(r@) =~= Self::needed_profile());
        }
        r
    }

    /// The keys of the variant `Profile` are distinct, and none is the key of a discriminant.
    pub proof fn lemma_names_profile()
        ensures
            Self::names_profile().no_duplicates(),
            !Self::names_profile().contains(tag_key()),
    {
        reveal_strlit("type");
        reveal_strlit("profile");
        assert("type"@.len() == 4);
        assert("profile"@.len() == 7);
    }

    /// What the variant `Profile` writes: one slot for each field.
    pub open spec fn slots_profile(profile: AsyncSincProfile) -> Seq<Slot> {
        seq![
            slot::<AsyncSincProfile>("profile"@, profile),
        ]
    }

    /// What entries stand for, read as the variant `Profile`.
    pub open spec fn decode_profile(m: Entries) -> Result<AsyncSincParametersView, Fault> {
        let profile = required::<AsyncSincProfile>(m, "profile"@);
        if let Some(e) = unknown_field(m, Self::names_profile()) {
            Err(e)
        } else if profile is Err {
            Err(profile->Err_0)
        } else {
            Ok(AsyncSincParametersView::Profile { profile: profile->Ok_0 })
        }
    }

    /// Reads the variant `Profile`.
    pub fn read_profile(f: &Fields) -> (r: Result<AsyncSincParameters, SchemaError>)
        ensures
            r matches Ok(x) ==> Self::decode_profile(f@) == Ok::<AsyncSincParametersView, Fault>(x.deep_view()),
            r matches Err(e) ==> Self::decode_profile(f@) == Err::<AsyncSincParametersView, Fault>(e.deep_view()),
    {
        let known = Self::field_names_profile();
        f.deny_unknown(&known)?;
        let profile = f.required::<AsyncSincProfile>("profile")?;
        Ok(AsyncSincParameters::Profile { profile })
    }

    /// Writes the fields of the variant `Profile` after what `w` holds.
    pub fn write_profile(w: Writer, profile: &AsyncSincProfile) -> (r: Writer)
        ensures
            r.slots() == w.slots() + Self::slots_profile(profile.deep_view()),
    {
        let ghost before = w.slots();
        let w = w.put::<AsyncSincProfile>("profile", profile);
        proof {
            assert(w.slots() =~= before + Self::slots_profile(profile.deep_view()));
        }
        w
    }

    /// Reading what the variant `Profile` wrote gives the fields back.
    pub proof fn lemma_profile(profile: AsyncSincProfile)
        ensures
            distinct_names(Self::slots_profile(profile)),
            !names_slot(Self::slots_profile(profile), tag_key()),
            Self::decode_profile(present(Self::slots_profile(profile))) == Ok::<AsyncSincParametersView, Fault>(
                AsyncSincParametersView::Profile { profile: profile },
            ),
    {
        Self::lemma_names_profile();
        let s = Self::slots_profile(profile);
        lemma_slot_names(s, Self::names_profile());
        lemma_present_known(s, Self::names_profile());
        lemma_required::<AsyncSincProfile>(s, 0, "profile"@, profile);
    }

    /// What the variant `Profile` writes is like any entries that its fields were read from.
    pub proof fn lemma_like_profile(m: Entries)
        requires
            distinct_keys(m),
        ensures
            Self::decode_profile(m) matches Ok(AsyncSincParametersView::Profile { profile }) ==> alike_entries(
                m,
                present(Self::slots_profile(profile)),
            ),
    {
        if let Ok(AsyncSincParametersView::Profile { profile }) = Self::decode_profile(m) {
            Self::lemma_names_profile();
            lemma_unknown_field(m, Self::names_profile());
            let s = lemma_matched_none(m);
            let s = lemma_matched_required::<AsyncSincProfile>(m, s, "profile"@, profile);
            assert(s =~= Self::slots_profile(profile));
            lemma_slot_names(s, Self::names_profile());
            lemma_alike_slots(m, s, Self::names_profile());
        }
    }

    /// The keys that the variant `Free` declares.
    pub open spec fn names_free() -> Seq<Seq<char>> {
        seq!["sinc_len"@, "interpolation"@, "window"@, "f_cutoff"@, "oversampling_factor"@]
    }

    /// The keys that the variant `Free` declares.
    pub fn field_names_free() -> (r: Vec<&'static str>)
        ensures
            texts(r@) == Self::names_free(),
    {
        let r = vec!["sinc_len", "interpolation", "window", "f_cutoff", "oversampling_factor"];
        proof {
            assert(texts(r@) =~= Self::names_free());
        }
        r
    }

    /// The keys that the variant `Free` cannot do without.
    pub open spec fn needed_free() -> Seq<Seq<char>> {
        seq!["sinc_len"@, "interpolation"@, "window"@, "oversampling_factor"@]
    }

    /// The keys that the variant `Free` cannot do without.
    pub fn needed_names_free() -> (r: Vec<&'static str>)
        ensures
            texts(r@) == Self::needed_free(),
    {
        let r = vec!["sinc_len", "interpolation", "window", "oversampling_factor"];
        proof {
            assert(texts(r@) =~= Self::needed_free());
        }
        r
    }

    /// The keys of the variant `Free` are distinct, and none is the key of a discriminant.
    pub proof fn lemma_names_free()
        ensures
            Self::names_free().no_duplicates(),
            !Self::names_free().contains(tag_key()),
    {
        reveal_strlit("type");
        reveal_strlit("sinc_len");
        reveal_strlit("interpolation");
        reveal_strlit("window");
        reveal_strlit("f_cutoff");
        reveal_strlit("oversampling_factor");
        assert("type"@.len() == 4);
        assert("sinc_len"@.len() == 8 && "sinc_len"@[0] == 's');
        assert("interpolation"@.len() == 13);
        assert("window"@.len() == 6);
        assert("f_cutoff"@.len() == 8 && "f_cutoff"@[0] == 'f');
        assert("oversampling_factor"@.len() == 19);
    }

    /// What the variant `Free` writes: one slot for each field.
    pub open spec fn slots_free(sinc_len: usize, interpolation: AsyncSincInterpolation, window: AsyncSincWindow, f_cutoff: Option<NumeralView>, oversampling_factor: usize) -> Seq<Slot> {
        seq![
            slot::<usize>("sinc_len"@, sinc_len),
            slot::<AsyncSincInterpolation>("interpolation"@, interpolation),
            slot::<AsyncSincWindow>("window"@, window),
            slot_opt::<Numeral>("f_cutoff"@, f_cutoff),
            slot::<usize>("oversampling_factor"@, oversampling_factor),
        ]
    }

    /// What entries stand for, read as the variant `Free`.
    pub open spec fn decode_free(m: Entries) -> Result<AsyncSincParametersView, Fault> {
        let sinc_len = required::<usize>(m, "sinc_len"@);
        let interpolation = required::<AsyncSincInterpolation>(m, "interpolation"@);
        let window = required::<AsyncSincWindow>(m, "window"@);
        let f_cutoff = optional::<Numeral>(m, "f_cutoff"@);
        let oversampling_factor = required::<usize>(m, "oversampling_factor"@);
        if let Some(e) = unknown_field(m, Self::names_free()) {
            Err(e)
        } else if sinc_len is Err {
            Err(sinc_len->Err_0)
        } else if interpolation is Err {
            Err(interpolation->Err_0)
        } else if window is Err {
            Err(window->Err_0)
        } else if f_cutoff is Err {
            Err(f_cutoff->Err_0)
        } else if oversampling_factor is Err {
            Err(oversampling_factor->Err_0)
        } else {
            Ok(
                AsyncSincParametersView::Free {
                    sinc_len: sinc_len->Ok_0,
                    interpolation: interpolation->Ok_0,
                    window: window->Ok_0,
                    f_cutoff: f_cutoff->Ok_0,
                    oversampling_factor: oversampling_factor->Ok_0,
                },
            )
        }
    }

    /// Reads the variant `Free`.
    pub fn read_free(f: &Fields) -> (r: Result<AsyncSincParameters, SchemaError>)
        ensures
            r matches Ok(x) ==> Self::decode_free(f@) == Ok::<AsyncSincParametersView, Fault>(x.deep_view()),
            r matches Err(e) ==> Self::decode_free(f@) == Err::<AsyncSincParametersView, Fault>(e.deep_view()),
    {
        let known = Self::field_names_free();
        f.deny_unknown(&known)?;
        let sinc_len = f.required::<usize>("sinc_len")?;
        let interpolation = f.required::<AsyncSincInterpolation>("interpolation")?;
        let window = f.required::<AsyncSincWindow>("window")?;
        let f_cutoff = f.optional::<Numeral>("f_cutoff")?;
        let oversampling_factor = f.required::<usize>("oversampling_factor")?;
        Ok(AsyncSincParameters::Free { sinc_len, interpolation, window, f_cutoff, oversampling_factor })
    }

    /// Writes the fields of the variant `Free` after what `w` holds.
    pub fn write_free(w: Writer, sinc_len: &usize, interpolation: &AsyncSincInterpolation, window: &AsyncSincWindow, f_cutoff: &Option<Numeral>, oversampling_factor: &usize) -> (r: Writer)
        ensures
            r.slots() == w.slots() + Self::slots_free(sinc_len.deep_view(), interpolation.deep_view(), window.deep_view(), f_cutoff.deep_view(), oversampling_factor.deep_view()),
    {
        let ghost before = w.slots();
        let w = w.put::<usize>("sinc_len", sinc_len);
        let w = w.put::<AsyncSincInterpolation>("interpolation", interpolation);
        let w = w.put::<AsyncSincWindow>("window", window);
        let w = w.put_opt::<Numeral>("f_cutoff", f_cutoff);
        let w = w.put::<usize>("oversampling_factor", oversampling_factor);
        proof {
            assert(w.slots() =~= before + Self::slots_free(sinc_len.deep_view(), interpolation.deep_view(), window.deep_view(), f_cutoff.deep_view(), oversampling_factor.deep_view()));
        }
        w
    }

    /// Reading what the variant `Free` wrote gives the fields back.
    pub proof fn lemma_free(sinc_len: usize, interpolation: AsyncSincInterpolation, window: AsyncSincWindow, f_cutoff: Option<NumeralView>, oversampling_factor: usize)
        ensures
            distinct_names(Self::slots_free(sinc_len, interpolation, window, f_cutoff, oversampling_factor)),
            !names_slot(Self::slots_free(sinc_len, interpolation, window, f_cutoff, oversampling_factor), tag_key()),
            Self::decode_free(present(Self::slots_free(sinc_len, interpolation, window, f_cutoff, oversampling_factor))) == Ok::<AsyncSincParametersView, Fault>(
                AsyncSincParametersView::Free { sinc_len: sinc_len, interpolation: interpolation, window: window, f_cutoff: f_cutoff, oversampling_factor: oversampling_factor },
            ),
    {
        Self::lemma_names_free();
        let s = Self::slots_free(sinc_len, interpolation, window, f_cutoff, oversampling_factor);
        lemma_slot_names(s, Self::names_free());
        lemma_present_known(s, Self::names_free());
        lemma_required::<usize>(s, 0, "sinc_len"@, sinc_len);
        lemma_required::<AsyncSincInterpolation>(s, 1, "interpolation"@, interpolation);
        lemma_required::<AsyncSincWindow>(s, 2, "window"@, window);
        lemma_optional::<Numeral>(s, 3, "f_cutoff"@, f_cutoff);
        lemma_required::<usize>(s, 4, "oversampling_factor"@, oversampling_factor);
    }

    /// What the variant `Free` writes is like any entries that its fields were read from.
    pub proof fn lemma_like_free(m: Entries)
        requires
            distinct_keys(m),
        ensures
            Self::decode_free(m) matches Ok(AsyncSincParametersView::Free { sinc_len, interpolation, window, f_cutoff, oversampling_factor }) ==> alike_entries(
                m,
                present(Self::slots_free(sinc_len, interpolation, window, f_cutoff, oversampling_factor)),
            ),
    {
        if let Ok(AsyncSincParametersView::Free { sinc_len, interpolation, window, f_cutoff, oversampling_factor }) = Self::decode_free(m) {
            Self::lemma_names_free();
            lemma_unknown_field(m, Self::names_free());
            let s = lemma_matched_none(m);
            let s = lemma_matched_required::<usize>(m, s, "sinc_len"@, sinc_len);
            let s = lemma_matched_required::<AsyncSincInterpolation>(m, s, "interpolation"@, interpolation);
            let s = lemma_matched_required::<AsyncSincWindow>(m, s, "window"@, window);
            let s = lemma_matched_optional::<Numeral>(m, s, "f_cutoff"@, f_cutoff);
            let s = lemma_matched_required::<usize>(m, s, "oversampling_factor"@, oversampling_factor);
            assert(s =~= Self::slots_free(sinc_len, interpolation, window, f_cutoff, oversampling_factor));
            lemma_slot_names(s, Self::names_free());
            lemma_alike_slots(m, s, Self::names_free());
        }
    }

    /// The shapes that are tried, in this order, each with its keys; a `?`
    /// marks a key that may be left out.
    pub open spec fn shapes() -> Seq<char> {
        "Profile {profile} | Free {sinc_len, interpolation, window, f_cutoff?, oversampling_factor}"@
    }
}

impl Record for AsyncSincParameters {
    open spec fn slots(v: AsyncSincParametersView) -> Seq<Slot> {
        match v {
            AsyncSincParametersView::Profile { profile } => Self::slots_profile(profile),
            AsyncSincParametersView::Free { sinc_len, interpolation, window, f_cutoff, oversampling_factor } => Self::slots_free(sinc_len, interpolation, window, f_cutoff, oversampling_factor),
        }
    }

    open spec fn decode_fields(m: Entries) -> Result<AsyncSincParametersView, Fault> {
        if fits(m, Self::names_profile(), Self::needed_profile()) {
            Self::decode_profile(m)
        } else if fits(m, Self::names_free(), Self::needed_free()) {
            Self::decode_free(m)
        } else {
            Err(Fault::no_variant(Self::shapes()))
        }
    }

    fn read_fields(f: &Fields) -> (r: Result<AsyncSincParameters, SchemaError>) {
        if f.fits(&Self::field_names_profile(), &Self::needed_names_profile()) {
            return Self::read_profile(f);
        }
        if f.fits(&Self::field_names_free(), &Self::needed_names_free()) {
            return Self::read_free(f);
        }
        Err(SchemaError::no_variant("Profile {profile} | Free {sinc_len, interpolation, window, f_cutoff?, oversampling_factor}"))
    }

    fn write_fields(&self, w: Writer) -> (r: Writer) {
        match self {
            AsyncSincParameters::Profile { profile } => Self::write_profile(w, profile),
            AsyncSincParameters::Free { sinc_len, interpolation, window, f_cutoff, oversampling_factor } => Self::write_free(w, sinc_len, interpolation, window, f_cutoff, oversampling_factor),
        }
    }

    proof fn lemma_fields(v: AsyncSincParametersView) {
        let s = Self::slots(v);
        let m = present(s);
        match v {
            AsyncSincParametersView::Profile { profile } => {
                Self::lemma_profile(profile);
                Self::lemma_names_profile();
                lemma_slot_names(s, Self::names_profile());
                lemma_present(s);
                lemma_present_known(s, Self::names_profile());
                assert(has_key(m, "profile"@)) by {
                    assert(s[0].0 == "profile"@ && field(m, s[0].0) == s[0].1);
                    lemma_has_field(m, "profile"@);
                }
                assert(fits(m, Self::names_profile(), Self::needed_profile()));
            },
            AsyncSincParametersView::Free { sinc_len, interpolation, window, f_cutoff, oversampling_factor } => {
                Self::lemma_free(sinc_len, interpolation, window, f_cutoff, oversampling_factor);
                Self::lemma_names_free();
                lemma_slot_names(s, Self::names_free());
                lemma_present(s);
                lemma_present_known(s, Self::names_free());
                assert(has_key(m, "sinc_len"@)) by {
                    assert(s[0].0 == "sinc_len"@ && field(m, s[0].0) == s[0].1);
                    lemma_has_field(m, "sinc_len"@);
                }
                assert(has_key(m, "interpolation"@)) by {
                    assert(s[1].0 == "interpolation"@ && field(m, s[1].0) == s[1].1);
                    lemma_has_field(m, "interpolation"@);
                }
                assert(has_key(m, "window"@)) by {
                    assert(s[2].0 == "window"@ && field(m, s[2].0) == s[2].1);
                    lemma_has_field(m, "window"@);
                }
                assert(has_key(m, "oversampling_factor"@)) by {
                    assert(s[4].0 == "oversampling_factor"@ && field(m, s[4].0) == s[4].1);
                    lemma_has_field(m, "oversampling_factor"@);
                }
                assert(fits(m, Self::names_free(), Self::needed_free()));
                assert(!fits(m, Self::names_profile(), Self::needed_profile())) by {
                    reveal_strlit("profile");
                    reveal_strlit("sinc_len");
                    reveal_strlit("interpolation");
                    reveal_strlit("window");
                    reveal_strlit("f_cutoff");
                    reveal_strlit("oversampling_factor");
                    assert("profile"@.len() == 7);
                    assert("sinc_len"@.len() == 8 && "sinc_len"@[0] == 's');
                    assert("interpolation"@.len() == 13);
                    assert("window"@.len() == 6);
                    assert("f_cutoff"@.len() == 8 && "f_cutoff"@[0] == 'f');
                    assert("oversampling_factor"@.len() == 19);
                    assert(Self::needed_profile()[0] == "profile"@);
                    if has_key(m, "profile"@) {
                        assert(names_slot(s, "profile"@));
                        let j = choose|j: int| 0 <= j < s.len() && (#[trigger] s[j]).0 == "profile"@;
                        assert(Self::names_free()[j] == s[j].0);
                    }
                }
            },
        }
    }

    proof fn lemma_fields_faithful(m: Entries) {
        Self::lemma_like_profile(m);
        Self::lemma_like_free(m);
    }
}

/// The degree of the polynomial of a polynomial resampler.
#[derive(Clone, Copy, Debug, PartialEq, Eq)]
pub enum AsyncPolyInterpolation {
    Linear,
    Cubic,
    Quintic,
    Septic,
}

impl DeepView for AsyncPolyInterpolation {
    type V = AsyncPolyInterpolation;

    open spec fn deep_view(&self) -> AsyncPolyInterpolation {
        *self
    }
}

impl Spelled for AsyncPolyInterpolation {
    open spec fn name(self) -> Seq<char> {
        match self {
            AsyncPolyInterpolation::Linear => "Linear"@,
            AsyncPolyInterpolation::Cubic => "Cubic"@,
            AsyncPolyInterpolation::Quintic => "Quintic"@,
            AsyncPolyInterpolation::Septic => "Septic"@,
        }
    }

    open spec fn named(t: Seq<char>) -> Option<AsyncPolyInterpolation> {
        if t == "Linear"@ {
            Some(AsyncPolyInterpolation::Linear)
        } else if t == "Cubic"@ {
            Some(AsyncPolyInterpolation::Cubic)
        } else if t == "Quintic"@ {
            Some(AsyncPolyInterpolation::Quintic)
        } else if t == "Septic"@ {
            Some(AsyncPolyInterpolation::Septic)
        } else {
            None
        }
    }

    fn as_str(&self) -> (r: &'static str) {
        match self {
            AsyncPolyInterpolation::Linear => "Linear",
            AsyncPolyInterpolation::Cubic => "Cubic",
            AsyncPolyInterpolation::Quintic => "Quintic",
            AsyncPolyInterpolation::Septic => "Septic",
        }
    }

    fn from_name(t: &str) -> (r: Option<AsyncPolyInterpolation>) {
        if same_text(t, "Linear") {
            Some(AsyncPolyInterpolation::Linear)
        } else if same_text(t, "Cubic") {
            Some(AsyncPolyInterpolation::Cubic)
        } else if same_text(t, "Quintic") {
            Some(AsyncPolyInterpolation::Quintic)
        } else if same_text(t, "Septic") {
            Some(AsyncPolyInterpolation::Septic)
        } else {
            None
        }
    }

    proof fn lemma_named(self) {
        reveal_strlit("Linear");
        reveal_strlit("Cubic");
        reveal_strlit("Quintic");
        reveal_strlit("Septic");
        assert("Linear"@.len() == 6 && "Linear"@[0] == 'L');
        assert("Cubic"@.len() == 5);
        assert("Quintic"@.len() == 7);
        assert("Septic"@.len() == 6 && "Septic"@[0] == 'S');
    }
}

impl Schema for AsyncPolyInterpolation {
    open spec fn decode(n: NodeView) -> Result<AsyncPolyInterpolation, Fault> {
        decode_spelled::<AsyncPolyInterpolation>(n)
    }

    open spec fn encode(v: AsyncPolyInterpolation) -> NodeView {
        encode_spelled::<AsyncPolyInterpolation>(v)
    }

    fn from_node(n: &Node) -> (r: Result<AsyncPolyInterpolation, SchemaError>) {
        read_spelled::<AsyncPolyInterpolation>(n)
    }

    fn to_node(&self) -> (n: Node) {
        write_spelled::<AsyncPolyInterpolation>(self)
    }

    proof fn lemma_round_trip(v: AsyncPolyInterpolation) {
        lemma_spelled_round_trip::<AsyncPolyInterpolation>(v);
    }

    proof fn lemma_faithful(n: NodeView) {
        lemma_spelled_faithful::<AsyncPolyInterpolation>(n);
    }
}

/// The resampler of a configuration.
#[derive(Clone, Debug, PartialEq, Eq)]
pub enum Resampler {
    AsyncPoly { interpolation: AsyncPolyInterpolation },
    AsyncSinc(AsyncSincParameters),
    Synchronous,
}

/// The mathematical value of a [`Resampler`].
pub enum ResamplerView {
    AsyncPoly { interpolation: AsyncPolyInterpolation },
    AsyncSinc(AsyncSincParametersView),
    Synchronous,
}

/// The discriminants of [`Resampler`].
#[derive(Clone, Copy, Debug, PartialEq, Eq)]
pub enum ResamplerKind {
    AsyncPoly,
    AsyncSinc,
    Synchronous,
}

impl Spelled for ResamplerKind {
    open spec fn name(self) -> Seq<char> {
        match self {
            ResamplerKind::AsyncPoly => "AsyncPoly"@,
            ResamplerKind::AsyncSinc => "AsyncSinc"@,
            ResamplerKind::Synchronous => "Synchronous"@,
        }
    }

    open spec fn named(t: Seq<char>) -> Option<ResamplerKind> {
        if t == "AsyncPoly"@ {
            Some(ResamplerKind::AsyncPoly)
        } else if t == "AsyncSinc"@ {
            Some(ResamplerKind::AsyncSinc)
        } else if t == "Synchronous"@ {
            Some(ResamplerKind::Synchronous)
        } else {
            None
        }
    }

    fn as_str(&self) -> (r: &'static str) {
        match self {
            ResamplerKind::AsyncPoly => "AsyncPoly",
            ResamplerKind::AsyncSinc => "AsyncSinc",
            ResamplerKind::Synchronous => "Synchronous",
        }
    }

    fn from_name(t: &str) -> (r: Option<ResamplerKind>) {
        if same_text(t, "AsyncPoly") {
            Some(ResamplerKind::AsyncPoly)
        } else if same_text(t, "AsyncSinc") {
            Some(ResamplerKind::AsyncSinc)
        } else if same_text(t, "Synchronous") {
            Some(ResamplerKind::Synchronous)
        } else {
            None
        }
    }

    proof fn lemma_named(self) {
        reveal_strlit("AsyncPoly");
        reveal_strlit("AsyncSinc");
        reveal_strlit("Synchronous");
        assert("AsyncPoly"@.len() == 9 && "AsyncPoly"@[5] == 'P');
        assert("AsyncSinc"@.len() == 9 && "AsyncSinc"@[5] == 'S');
        assert("Synchronous"@.len() == 11);
    }
}

impl DeepView for Resampler {
    type V = ResamplerView;

    open spec fn deep_view(&self) -> ResamplerView {
        match self {
            Resampler::AsyncPoly { interpolation } => ResamplerView::AsyncPoly {
                interpolation: interpolation.deep_view(),
            },
            Resampler::AsyncSinc(p) => ResamplerView::AsyncSinc(p.deep_view()),
            Resampler::Synchronous => ResamplerView::Synchronous,
        }
    }
}

impl Resampler {
    /// The keys that the variant `AsyncPoly` declares.
    pub open spec fn names_async_poly() -> Seq<Seq<char>> {
        seq!["interpolation"@]
    }

    /// The keys of the variant `AsyncPoly` are distinct, and none is the key of a discriminant.
    pub proof fn lemma_names_async_poly()
        ensures
            Self::names_async_poly().no_duplicates(),
            !Self::names_async_poly().contains(tag_key()),
    {
        reveal_strlit("type");
        reveal_strlit("interpolation");
        assert("type"@.len() == 4);
        assert("interpolation"@.len() == 13);
    }

    /// What the variant `AsyncPoly` writes: one slot for each field.
    pub open spec fn slots_async_poly(interpolation: AsyncPolyInterpolation) -> Seq<Slot> {
        seq![
            slot::<AsyncPolyInterpolation>("interpolation"@, interpolation),
        ]
    }

    /// What entries stand for, read as the variant `AsyncPoly`.
    pub open spec fn decode_async_poly(m: Entries) -> Result<ResamplerView, Fault> {
        let interpolation = required::<AsyncPolyInterpolation>(m, "interpolation"@);
        if let Some(e) = unknown_field(m, Self::names_async_poly()) {
            Err(e)
        } else if interpolation is Err {
            Err(interpolation->Err_0)
        } else {
            Ok(ResamplerView::AsyncPoly { interpolation: interpolation->Ok_0 })
        }
    }

    /// Reads the variant `AsyncPoly`.
    pub fn read_async_poly(f: &Fields) -> (r: Result<Resampler, SchemaError>)
        ensures
            r matches Ok(x) ==> Self::decode_async_poly(f@) == Ok::<ResamplerView, Fault>(x.deep_view()),
            r matches Err(e) ==> Self::decode_async_poly(f@) == Err::<ResamplerView, Fault>(e.deep_view()),
    {
        let known = vec!["interpolation"];
        proof {
            assert(texts(known@) =~= Self::names_async_poly());
        }
        f.deny_unknown(&known)?;
        let interpolation = f.required::<AsyncPolyInterpolation>("interpolation")?;
        Ok(Resampler::AsyncPoly { interpolation })
    }

    /// Writes the fields of the variant `AsyncPoly` after what `w` holds.
    pub fn write_async_poly(w: Writer, interpolation: &AsyncPolyInterpolation) -> (r: Writer)
        ensures
            r.slots() == w.slots() + Self::slots_async_poly(interpolation.deep_view()),
    {
        let ghost before = w.slots();
        let w = w.put::<AsyncPolyInterpolation>("interpolation", interpolation);
        proof {
            assert(w.slots() =~= before + Self::slots_async_poly(interpolation.deep_view()));
        }
        w
    }

    /// Reading what the variant `AsyncPoly` wrote gives the fields back.
    pub proof fn lemma_async_poly(interpolation: AsyncPolyInterpolation)
        ensures
            distinct_names(Self::slots_async_poly(interpolation)),
            !names_slot(Self::slots_async_poly(interpolation), tag_key()),
            Self::decode_async_poly(present(Self::slots_async_poly(interpolation))) == Ok::<ResamplerView, Fault>(
                ResamplerView::AsyncPoly { interpolation: interpolation },
            ),
    {
        Self::lemma_names_async_poly();
        let s = Self::slots_async_poly(interpolation);
        lemma_slot_names(s, Self::names_async_poly());
        lemma_present_known(s, Self::names_async_poly());
        lemma_required::<AsyncPolyInterpolation>(s, 0, "interpolation"@, interpolation);
    }

    /// What the variant `AsyncPoly` writes is like any entries that its fields were read from.
    pub proof fn lemma_like_async_poly(m: Entries)
        requires
            distinct_keys(m),
        ensures
            Self::decode_async_poly(m) matches Ok(ResamplerView::AsyncPoly { interpolation }) ==> alike_entries(
                m,
                present(Self::slots_async_poly(interpolation)),
            ),
    {
        if let Ok(ResamplerView::AsyncPoly { interpolation }) = Self::decode_async_poly(m) {
            Self::lemma_names_async_poly();
            lemma_unknown_field(m, Self::names_async_poly());
            let s = lemma_matched_none(m);
            let s = lemma_matched_required::<AsyncPolyInterpolation>(m, s, "interpolation"@, interpolation);
            assert(s =~= Self::slots_async_poly(interpolation));
            lemma_slot_names(s, Self::names_async_poly());
            lemma_alike_slots(m, s, Self::names_async_poly());
        }
    }

    /// The keys that the variant `Synchronous` declares.
    pub open spec fn names_synchronous() -> Seq<Seq<char>> {
        Seq::empty()
    }

    /// The keys of the variant `Synchronous` are distinct, and none is the key of a discriminant.
    pub proof fn lemma_names_synchronous()
        ensures
            Self::names_synchronous().no_duplicates(),
            !Self::names_synchronous().contains(tag_key()),
    {
        reveal_strlit("type");
        assert("type"@.len() == 4);
    }

    /// What the variant `Synchronous` writes: one slot for each field.
    pub open spec fn slots_synchronous() -> Seq<Slot> {
        Seq::empty()
    }

    /// What entries stand for, read as the variant `Synchronous`.
    pub open spec fn decode_synchronous(m: Entries) -> Result<ResamplerView, Fault> {
        if let Some(e) = unknown_field(m, Self::names_synchronous()) {
            Err(e)
        } else {
            Ok(ResamplerView::Synchronous)
        }
    }

    /// Reads the variant `Synchronous`.
    pub fn read_synchronous(f: &Fields) -> (r: Result<Resampler, SchemaError>)
        ensures
            r matches Ok(x) ==> Self::decode_synchronous(f@) == Ok::<ResamplerView, Fault>(x.deep_view()),
            r matches Err(e) ==> Self::decode_synchronous(f@) == Err::<ResamplerView, Fault>(e.deep_view()),
    {
        let known: Vec<&'static str> = Vec::new();
        proof {
            assert(texts(known@) =~= Self::names_synchronous());
        }
        f.deny_unknown(&known)?;
        Ok(Resampler::Synchronous)
    }

    /// Writes the fields of the variant `Synchronous` after what `w` holds.
    pub fn write_synchronous(w: Writer) -> (r: Writer)
        ensures
            r.slots() == w.slots() + Self::slots_synchronous(),
    {
        let ghost before = w.slots();
        proof {
            assert(w.slots() =~= before + Self::slots_synchronous());
        }
        w
    }

    /// Reading what the variant `Synchronous` wrote gives the fields back.
    pub proof fn lemma_synchronous()
        ensures
            distinct_names(Self::slots_synchronous()),
            !names_slot(Self::slots_synchronous(), tag_key()),
            Self::decode_synchronous(present(Self::slots_synchronous())) == Ok::<ResamplerView, Fault>(
                ResamplerView::Synchronous,
            ),
    {
        Self::lemma_names_synchronous();
        let s = Self::slots_synchronous();
        lemma_slot_names(s, Self::names_synchronous());
        lemma_present_known(s, Self::names_synchronous());
    }

    /// What the variant `Synchronous` writes is like any entries that its fields were read from.
    pub proof fn lemma_like_synchronous(m: Entries)
        requires
            distinct_keys(m),
        ensures
            Self::decode_synchronous(m) matches Ok(ResamplerView::Synchronous) ==> alike_entries(
                m,
                present(Self::slots_synchronous()),
            ),
    {
        if let Ok(ResamplerView::Synchronous) = Self::decode_synchronous(m) {
            Self::lemma_names_synchronous();
            lemma_unknown_field(m, Self::names_synchronous());
            let s = lemma_matched_none(m);
            assert(s =~= Self::slots_synchronous());
            lemma_slot_names(s, Self::names_synchronous());
            lemma_alike_slots(m, s, Self::names_synchronous());
        }
    }

    /// The discriminant of a value.
    pub open spec fn kind_of(v: ResamplerView) -> ResamplerKind {
        match v {
            ResamplerView::AsyncPoly { .. } => ResamplerKind::AsyncPoly,
            ResamplerView::AsyncSinc(_) => ResamplerKind::AsyncSinc,
            ResamplerView::Synchronous => ResamplerKind::Synchronous,
        }
    }

    /// What a value writes beside its discriminant.
    pub open spec fn variant_slots(v: ResamplerView) -> Seq<Slot> {
        match v {
            ResamplerView::AsyncPoly { interpolation } => Self::slots_async_poly(interpolation),
            ResamplerView::AsyncSinc(p) => <AsyncSincParameters as Record>::slots(p),
            ResamplerView::Synchronous => Self::slots_synchronous(),
        }
    }

    /// The value that entries stand for, read as the variant that `k` selects.
    pub open spec fn decode_variant(k: ResamplerKind, m: Entries) -> Result<ResamplerView, Fault> {
        match k {
            ResamplerKind::AsyncPoly => Self::decode_async_poly(m),
            ResamplerKind::AsyncSinc => match <AsyncSincParameters as Record>::decode_fields(m) {
                Ok(p) => Ok(ResamplerView::AsyncSinc(p)),
                Err(e) => Err(e),
            },
            ResamplerKind::Synchronous => Self::decode_synchronous(m),
        }
    }
}

impl Schema for Resampler {
    open spec fn decode(n: NodeView) -> Result<ResamplerView, Fault> {
        decode_tagged(n, |k: ResamplerKind, m: Entries| Self::decode_variant(k, m))
    }

    open spec fn encode(v: ResamplerView) -> NodeView {
        tagged_node(Self::kind_of(v).name(), Self::variant_slots(v))
    }

    fn from_node(n: &Node) -> (r: Result<Resampler, SchemaError>) {
        let f = Fields::of(n)?;
        let (k, rest) = f.tagged::<ResamplerKind>()?;
        match k {
            ResamplerKind::AsyncPoly => Self::read_async_poly(&rest),
            ResamplerKind::AsyncSinc => match <AsyncSincParameters as Record>::read_fields(&rest) {
                Ok(p) => Ok(Resampler::AsyncSinc(p)),
                Err(e) => Err(e),
            },
            ResamplerKind::Synchronous => Self::read_synchronous(&rest),
        }
    }

    fn to_node(&self) -> (n: Node) {
        let ghost v = self.deep_view();
        let w = Writer::tagged(&self.kind());
        let w = match self {
            Resampler::AsyncPoly { interpolation } => Self::write_async_poly(w, interpolation),
            Resampler::AsyncSinc(p) => p.write_fields(w),
            Resampler::Synchronous => Self::write_synchronous(w),
        };
        w.finish()
    }

    proof fn lemma_round_trip(v: ResamplerView) {
        Self::lemma_variant(v);
        lemma_tagged_round_trip(
            Self::kind_of(v),
            Self::variant_slots(v),
            |k: ResamplerKind, m: Entries| Self::decode_variant(k, m),
        );
    }

    proof fn lemma_faithful(n: NodeView) {
        if is_record(n) {
            if let Ok(k) = tag_of::<ResamplerKind>(entries(n)) {
                lemma_untagged_distinct::<ResamplerKind>(n);
                Self::lemma_variant_like(k, untagged(entries(n)));
                if let Ok(v) = Self::decode_variant(k, untagged(entries(n))) {
                    Self::lemma_variant(v);
                    lemma_tagged_faithful(n, k, Self::variant_slots(v));
                }
            }
        }
    }
}

impl Resampler {
    /// Reading what a value writes beside its discriminant, as the variant of
    /// the value, gives the value back; its slots have distinct names, none of
    /// them the key of the discriminant.
    pub proof fn lemma_variant(v: ResamplerView)
        ensures
            distinct_names(Self::variant_slots(v)),
            !names_slot(Self::variant_slots(v), tag_key()),
            Self::decode_variant(Self::kind_of(v), present(Self::variant_slots(v))) == Ok::<ResamplerView, Fault>(v),
    {
        match v {
            ResamplerView::AsyncPoly { interpolation } => {
                Self::lemma_async_poly(interpolation);
            },
            ResamplerView::AsyncSinc(p) => {
                <AsyncSincParameters as Record>::lemma_fields(p);
            },
            ResamplerView::Synchronous => {
                Self::lemma_synchronous();
            },
        }
    }

    /// What a value writes beside its discriminant is like any entries that
    /// the value was read from as the variant that `k` selects; and the value
    /// is of that variant.
    pub proof fn lemma_variant_like(k: ResamplerKind, m: Entries)
        requires
            distinct_keys(m),
        ensures
            Self::decode_variant(k, m) matches Ok(v) ==> Self::kind_of(v) == k && alike_entries(
                m,
                present(Self::variant_slots(v)),
            ),
    {
        match k {
            ResamplerKind::AsyncPoly => {
                Self::lemma_like_async_poly(m);
            },
            ResamplerKind::AsyncSinc => {
                <AsyncSincParameters as Record>::lemma_fields_faithful(m);
            },
            ResamplerKind::Synchronous => {
                Self::lemma_like_synchronous(m);
            },
        }
    }

    /// The discriminant of the value.
    pub fn kind(&self) -> (k: ResamplerKind)
        ensures
            k == Self::kind_of(self.deep_view()),
    {
        match self {
            Resampler::AsyncPoly { .. } => ResamplerKind::AsyncPoly,
            Resampler::AsyncSinc(_) => ResamplerKind::AsyncSinc,
            Resampler::Synchronous => ResamplerKind::Synchronous,
        }
    }
}

} // verus!
