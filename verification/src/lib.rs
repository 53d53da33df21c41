//! Typed configuration schema of a multi-stage audio processing pipeline.
//!
//! A [`Configuration`] says how audio flows: from which device it is
//! captured, through which mixers, filters and processors it runs and in
//! which order, and on which device it is played. It is built in memory or
//! read from a YAML document, and is written back as YAML.
//!
//! Reading is strict. A key that its level does not declare, a field that is
//! missing, a value of the wrong kind, a discriminant that names no variant:
//! each is a [`SchemaError`] that says where in the document it was met.
//! Nothing is coerced and nothing is passed over.
//!
//! The crate keeps the text apart from the tree. [`yaml`] reads text as a
//! tree of [`Node`]s and writes a tree as text, through `serde_yaml`.
//! Everything else works on trees and is proved: what each type reads
//! ([`Schema::decode`]), what it writes ([`Schema::encode`]), that the code
//! does just that, that reading what was written gives the value back, and
//! that what is written for a value has the keys of whatever the value was
//! read from ([`laws`]). Whether the names in a pipeline are defined, and whether a channel exists,
//! is not checked here: that is for the engine that runs the configuration.

pub mod codec;
pub mod composite;
pub mod error;
pub mod fields;
pub mod laws;
pub mod likeness;
pub mod named;
pub mod node;
pub mod record;
pub mod schema;
pub mod sequence;
pub mod spelling;
pub mod text;
pub mod types;
pub mod yaml;

pub use codec::{outcome, parsed};
pub use composite::Record;
pub use error::{ErrorKind, Fault, SchemaError, Segment, SegmentView};
pub use named::NamedMap;
pub use node::{Node, NodeView, Numeral, NumeralView};
pub use schema::Schema;
pub use spelling::Spelled;
pub use types::common::{
    FileFormat, GainScale, LoudnessFader, SampleFormat, Signal, SignalKind, SignalView, TimeUnit,
    VolumeFader,
};
pub use types::resampler::{
    AsyncPolyInterpolation, AsyncSincInterpolation, AsyncSincParameters, AsyncSincParametersView,
    AsyncSincProfile, AsyncSincWindow, Resampler, ResamplerKind, ResamplerView,
};
pub use types::devices::{
    CaptureDevice, CaptureDeviceBluez, CaptureDeviceBluezView, CaptureDeviceCA, CaptureDeviceCAView,
    CaptureDeviceKind, CaptureDeviceRawFile, CaptureDeviceRawFileView, CaptureDeviceStdin,
    CaptureDeviceStdinView, CaptureDeviceView, CaptureDeviceWasapi, CaptureDeviceWasapiView,
    CaptureDeviceWavFile, CaptureDeviceWavFileView, Devices, DevicesView, PlaybackDevice,
    PlaybackDeviceCA, PlaybackDeviceCAView, PlaybackDeviceKind, PlaybackDeviceView,
    PlaybackDeviceWasapi, PlaybackDeviceWasapiView,
};
pub use types::filters::{
    BiquadComboParameters, BiquadComboParametersKind, BiquadComboParametersView, BiquadParameters,
    BiquadParametersKind, BiquadParametersView, ConvParameters, ConvParametersKind,
    ConvParametersRaw, ConvParametersRawView, ConvParametersView, ConvParametersWav,
    ConvParametersWavView, DelayParameters, DelayParametersView, DiffEqParameters,
    DiffEqParametersView, DitherParameters, DitherParametersKind, DitherParametersView, Filter,
    FilterKind, FilterView, GainParameters, GainParametersView, GeneralNotchParams,
    GeneralNotchParamsView, GraphicEqualizerParameters, GraphicEqualizerParametersView,
    LimiterParameters, LimiterParametersView, LoudnessParameters, LoudnessParametersView,
    NotchWidth, NotchWidthView, PeakingWidth, PeakingWidthView, ShelfSteepness, ShelfSteepnessView,
    VolumeParameters, VolumeParametersView,
};
pub use types::mixer::{
    Mixer, MixerChannels, MixerMapping, MixerMappingView, MixerSource, MixerSourceView, MixerView,
};
pub use types::pipeline::{
    PipelineStep, PipelineStepFilter, PipelineStepFilterView, PipelineStepKind, PipelineStepMixer,
    PipelineStepMixerView, PipelineStepProcessor, PipelineStepProcessorView, PipelineStepView,
};
pub use types::processor::{
    CompressorParameters, CompressorParametersView, NoiseGateParameters, NoiseGateParametersView,
    Processor, ProcessorKind, ProcessorView,
};
pub use types::configuration::{Configuration, ConfigurationView};
