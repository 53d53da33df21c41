use dsp_config::{
    BiquadComboParameters, CaptureDevice, CaptureDeviceRawFile, CompressorParameters, Configuration,
    DelayParameters, Devices, FileFormat, Filter, GraphicEqualizerParameters, LoudnessFader,
    LoudnessParameters, Mixer, MixerChannels, MixerMapping, MixerSource, NamedMap, Numeral,
    PipelineStep, PipelineStepFilter, PipelineStepMixer, PipelineStepProcessor, PlaybackDevice,
    Processor, SampleFormat, Signal, TimeUnit, VolumeFader, VolumeParameters,
};

const CAPTURES: [&str; 10] = [
    "{type: Alsa, channels: 2, device: d, format: S24LE, stop_on_inactive: false, link_volume_control: v, link_mute_control: m, labels: [a, b]}",
    "{type: Bluez, service: s, dbus_path: /org/bluez, format: S16LE, channels: 2}",
    "{type: Pulse, channels: 2, device: d, format: FLOAT32LE}",
    "{type: RawFile, channels: 2, filename: in.raw, format: FLOAT64LE, extra_samples: 1, skip_bytes: 2, read_bytes: 3}",
    "{type: WavFile, filename: in.wav, extra_samples: 10}",
    "{type: Stdin, channels: 1, format: S24LE3, skip_bytes: 44}",
    "{type: CoreAudio, channels: 2, device: Built-in, format: S32LE}",
    "{type: Wasapi, channels: 2, device: Line, format: S16LE, exclusive: true, loopback: false}",
    "{type: Jack, channels: 2, device: default}",
    "{type: SignalGenerator, channels: 2, signal: {type: Sine, freq: 1000, level: -20.5}}",
];

const PLAYBACKS: [&str; 7] = [
    "{type: Alsa, channels: 2, device: d, format: S24LE}",
    "{type: Pulse, channels: 2, device: d, format: FLOAT32LE}",
    "{type: File, channels: 2, filename: out.raw, format: S16LE, wav_header: true}",
    "{type: Stdout, channels: 2, format: S16LE}",
    "{type: CoreAudio, channels: 2, exclusive: false}",
    "{type: Wasapi, channels: 2, format: S16LE}",
    "{type: Jack, channels: 2, device: default}",
];

const FILTERS: [&str; 46] = [
    "{type: Conv, parameters: {type: Raw, filename: f.txt, format: TEXT, skip_bytes_lines: 1, read_bytes_lines: 2}}",
    "{type: Conv, parameters: {type: Wav, filename: f.wav, channel: 1}}",
    "{type: Conv, parameters: {type: Values, values: [1.0, 0.5, 0]}}",
    "{type: Conv, description: nothing, parameters: {type: Dummy, length: 64}}",
    "{type: Biquad, parameters: {type: Free, a1: 1, a2: 2, b0: 3, b1: 4, b2: 5}}",
    "{type: Biquad, parameters: {type: Highpass, freq: 80, q: 0.5}}",
    "{type: Biquad, parameters: {type: Lowpass, freq: 80, q: 0.5}}",
    "{type: Biquad, parameters: {type: Peaking, freq: 80, q: 0.5, gain: 1}}",
    "{type: Biquad, parameters: {type: Highshelf, freq: 80, slope: 6, gain: 1}}",
    "{type: Biquad, parameters: {type: HighshelfFO, freq: 80, gain: 1}}",
    "{type: Biquad, parameters: {type: Lowshelf, freq: 80, q: 0.5, gain: 1}}",
    "{type: Biquad, parameters: {type: LowshelfFO, freq: 80, gain: 1}}",
    "{type: Biquad, parameters: {type: HighpassFO, freq: 80}}",
    "{type: Biquad, parameters: {type: LowpassFO, freq: 80}}",
    "{type: Biquad, parameters: {type: Allpass, freq: 80, bandwidth: 1}}",
    "{type: Biquad, parameters: {type: AllpassFO, freq: 80}}",
    "{type: Biquad, parameters: {type: Bandpass, freq: 80, q: 1}}",
    "{type: Biquad, parameters: {type: Notch, freq: 80, q: 1}}",
    "{type: Biquad, parameters: {type: GeneralNotch, freq_p: 80, freq_z: 90, q_p: 1, normalize_at_dc: true}}",
    "{type: Biquad, parameters: {type: LinkwitzTransform, freq_act: 50, q_act: 1.5, freq_target: 25, q_target: 0.5}}",
    "{type: BiquadCombo, parameters: {type: LinkwitzRileyHighpass, freq: 2000, order: 4}}",
    "{type: BiquadCombo, parameters: {type: LinkwitzRileyLowpass, freq: 2000, order: 4}}",
    "{type: BiquadCombo, parameters: {type: ButterworthHighpass, freq: 2000, order: 3}}",
    "{type: BiquadCombo, parameters: {type: ButterworthLowpass, freq: 2000, order: 3}}",
    "{type: BiquadCombo, parameters: {type: Tilt, gain: -2.5}}",
    "{type: BiquadCombo, parameters: {type: FivePointPeq, fls: 1, qls: 2, gls: 3, fp1: 4, qp1: 5, gp1: 6, fp2: 7, qp2: 8, gp2: 9, fp3: 10, qp3: 11, gp3: 12, fhs: 13, qhs: 14, ghs: 15}}",
    "{type: BiquadCombo, parameters: {type: GraphicEqualizer, freq_min: 20, freq_max: 20000, gains: [0, 1.5, -1.5]}}",
    "{type: Delay, parameters: {delay: 12.3, unit: ms, subsample: false}}",
    "{type: Delay, parameters: {delay: 100, unit: mm}}",
    "{type: Delay, parameters: {delay: 100, unit: samples}}",
    "{type: Gain, parameters: {gain: -3, inverted: true, mute: false, scale: linear}}",
    "{type: Gain, parameters: {gain: -3, scale: dB}}",
    "{type: Volume, parameters: {ramp_time: 200, fader: Aux1, limit: -3}}",
    "{type: Volume, parameters: {fader: Aux4}}",
    "{type: Loudness, parameters: {reference_level: -25, high_boost: 7, low_boost: 7, fader: Main, attenuate_mid: false}}",
    "{type: Loudness, parameters: {reference_level: -25, fader: Aux3}}",
    "{type: Dither, parameters: {type: None, bits: 16}}",
    "{type: Dither, parameters: {type: Flat, bits: 16, amplitude: 2}}",
    "{type: Dither, parameters: {type: Highpass, bits: 16}}",
    "{type: Dither, parameters: {type: FweightedShort441, bits: 16}}",
    "{type: Dither, parameters: {type: Gesemann48, bits: 24}}",
    "{type: Dither, parameters: {type: LipshitzLong441, bits: 16}}",
    "{type: Dither, parameters: {type: ShibataLow192, bits: 16}}",
    "{type: DiffEq, parameters: {a: [1, -0.5], b: [0.5, 0.5]}}",
    "{type: DiffEq, parameters: {}}",
    "{type: Limiter, parameters: {soft_clip: true, clip_limit: -3.5}}",
];

const DITHERS: [&str; 22] = [
    "None",
    "Flat",
    "Highpass",
    "Fweighted441",
    "FweightedLong441",
    "FweightedShort441",
    "Gesemann441",
    "Gesemann48",
    "Lipshitz441",
    "LipshitzLong441",
    "Shibata441",
    "ShibataHigh441",
    "ShibataLow441",
    "Shibata48",
    "ShibataHigh48",
    "ShibataLow48",
    "Shibata882",
    "ShibataLow882",
    "Shibata96",
    "ShibataLow96",
    "Shibata192",
    "ShibataLow192",
];

fn document(capture: &str, playback: &str, rest: &str) -> String {
    format!(
        "devices:\n  samplerate: 96000\n  chunksize: 2048\n  capture: {}\n  playback: {}\n{}",
        capture, playback, rest
    )
}

fn cycle(text: &str) -> Configuration {
    let first = Configuration::from_yaml_string(text).unwrap_or_else(|e| panic!("{:?} in\n{}", e, text));
    let written = first.to_yaml_string().unwrap();
    let second = Configuration::from_yaml_string(&written).unwrap_or_else(|e| panic!("{:?} in\n{}", e, written));
    assert_eq!(first, second);
    assert_eq!(second.to_yaml_string().unwrap(), written);
    first
}

fn whole(n: u64) -> Numeral {
    Numeral::Unsigned(n)
}

fn fraction(text: &str) -> Numeral {
    Numeral::Real(text.to_string())
}

#[test]
fn every_capture_device_is_read_and_written() {
    for capture in CAPTURES {
        let c = cycle(&document(capture, PLAYBACKS[0], ""));
        let kind = capture[7..].split(',').next().unwrap();
        assert!(c.to_yaml_string().unwrap().contains(&format!("  capture:\n    type: {}\n", kind)));
    }
}

#[test]
fn every_playback_device_is_read_and_written() {
    for playback in PLAYBACKS {
        let c = cycle(&document(CAPTURES[8], playback, ""));
        let kind = playback[7..].split(',').next().unwrap();
        assert!(c.to_yaml_string().unwrap().contains(&format!("  playback:\n    type: {}\n", kind)));
    }
}

#[test]
fn every_filter_is_read_and_written() {
    let mut rest = String::from("filters:\n");
    for (i, filter) in FILTERS.iter().enumerate() {
        rest.push_str(&format!("  filter{}: {}\n", i, filter));
    }
    let c = cycle(&document(CAPTURES[0], PLAYBACKS[0], &rest));
    let filters = c.filters.unwrap();
    assert_eq!(filters.len(), FILTERS.len());
    for i in 0..FILTERS.len() {
        assert_eq!(filters.name(i), &format!("filter{}", i));
    }
    assert_eq!(
        filters.get("filter28"),
        Some(&Filter::Delay {
            description: None,
            parameters: DelayParameters { delay: whole(100), unit: Some(TimeUnit::Millimetres), subsample: None },
        })
    );
    assert_eq!(
        filters.get("filter26"),
        Some(&Filter::BiquadCombo {
            description: None,
            parameters: BiquadComboParameters::GraphicEqualizer(GraphicEqualizerParameters {
                freq_min: Some(whole(20)),
                freq_max: Some(whole(20000)),
                gains: vec![whole(0), fraction("1.5"), fraction("-1.5")],
            }),
        })
    );
    assert_eq!(
        filters.get("filter33"),
        Some(&Filter::Volume {
            description: None,
            parameters: VolumeParameters { ramp_time: None, fader: VolumeFader::Aux4, limit: None },
        })
    );
    assert_eq!(
        filters.get("filter35"),
        Some(&Filter::Loudness {
            description: None,
            parameters: LoudnessParameters {
                reference_level: Numeral::Negative(-25),
                high_boost: None,
                low_boost: None,
                fader: Some(LoudnessFader::Aux3),
                attenuate_mid: None,
            },
        })
    );
}

#[test]
fn every_dither_is_read_and_written() {
    let mut rest = String::from("filters:\n");
    for name in DITHERS {
        let amplitude = if name == "Flat" { ", amplitude: 1.5" } else { "" };
        rest.push_str(&format!("  {}: {{type: Dither, parameters: {{type: {}, bits: 16{}}}}}\n", name, name, amplitude));
    }
    let c = cycle(&document(CAPTURES[0], PLAYBACKS[0], &rest));
    let written = c.to_yaml_string().unwrap();
    for name in DITHERS {
        assert!(written.contains(&format!("      type: {}\n      bits: 16\n", name)), "{}", name);
    }
}

#[test]
fn every_tuning_parameter_of_the_devices_is_read_and_written() {
    let rest = "  queuelimit: 4\n  silence_threshold: -60\n  silence_timeout: 3.5\n  enable_rate_adjust: true\n  target_level: 512\n  adjust_period: 10\n  resampler: {type: AsyncPoly, interpolation: Septic}\n  capture_samplerate: 44100\n  stop_on_rate_change: false\n  rate_measure_interval: 1.0\n  volume_ramp_time: 400\n  volume_limit: -3\n  multithreaded: true\n  worker_threads: 4\n";
    let c = cycle(&document(CAPTURES[3], PLAYBACKS[2], rest));
    assert_eq!(c.devices.queuelimit, Some(4));
    assert_eq!(c.devices.silence_threshold, Some(Numeral::Negative(-60)));
    assert_eq!(c.devices.silence_timeout, Some(fraction("3.5")));
    assert_eq!(c.devices.rate_measure_interval, Some(fraction("1.0")));
    assert_eq!(c.devices.worker_threads, Some(4));
    assert_eq!(
        c.devices.capture,
        CaptureDevice::RawFile(CaptureDeviceRawFile {
            channels: 2,
            filename: "in.raw".to_string(),
            format: SampleFormat::FLOAT64LE,
            extra_samples: Some(1),
            skip_bytes: Some(2),
            read_bytes: Some(3),
            labels: None,
        })
    );
    assert_eq!(
        c.devices.playback,
        PlaybackDevice::File {
            channels: 2,
            filename: "out.raw".to_string(),
            format: SampleFormat::S16LE,
            wav_header: Some(true),
        }
    );
}

#[test]
fn mixers_processors_and_pipeline_are_read_and_written() {
    let rest = "mixers:\n  stereo:\n    description: two to two\n    channels: {in: 2, out: 2}\n    labels: [L, R]\n    mapping:\n      - dest: 0\n        mute: false\n        sources:\n          - {channel: 0, gain: 0, inverted: false, mute: false, scale: dB}\n          - {channel: 1, gain: 0.5, scale: linear}\n      - dest: 1\n        sources: [{channel: 1}]\nprocessors:\n  squeeze:\n    type: Compressor\n    description: gentle\n    parameters: {channels: 2, monitor_channels: [0, 1], process_channels: [0], attack: 0.025, release: 1.0, threshold: -25, factor: 5.0, makeup_gain: 15, soft_clip: true, clip_limit: -2}\n  gate:\n    type: NoiseGate\n    parameters: {channels: 2, attack: 0.025, release: 1.0, threshold: -25, attenuation: 20}\npipeline:\n  - {type: Mixer, name: stereo, description: first, bypassed: false}\n  - {type: Filter, names: [a, b], channels: [1], bypassed: true}\n  - {type: Filter, names: []}\n  - {type: Processor, name: squeeze}\n";
    let c = cycle(&document(CAPTURES[9], PLAYBACKS[3], rest));
    let stereo = c.mixers.as_ref().unwrap().get("stereo").unwrap();
    assert_eq!(
        stereo,
        &Mixer {
            description: Some("two to two".to_string()),
            channels: MixerChannels { input: 2, out: 2 },
            mapping: vec![
                MixerMapping {
                    dest: 0,
                    sources: vec![
                        MixerSource {
                            channel: 0,
                            gain: Some(whole(0)),
                            inverted: Some(false),
                            mute: Some(false),
                            scale: Some(dsp_config::GainScale::Decibel),
                        },
                        MixerSource {
                            channel: 1,
                            gain: Some(fraction("0.5")),
                            inverted: None,
                            mute: None,
                            scale: Some(dsp_config::GainScale::Linear),
                        },
                    ],
                    mute: Some(false),
                },
                MixerMapping {
                    dest: 1,
                    sources: vec![MixerSource { channel: 1, gain: None, inverted: None, mute: None, scale: None }],
                    mute: None,
                },
            ],
            labels: Some(vec![Some("L".to_string()), Some("R".to_string())]),
        }
    );
    assert_eq!(
        c.processors.as_ref().unwrap().get("squeeze"),
        Some(&Processor::Compressor {
            description: Some("gentle".to_string()),
            parameters: CompressorParameters {
                channels: 2,
                monitor_channels: Some(vec![0, 1]),
                process_channels: Some(vec![0]),
                attack: fraction("0.025"),
                release: fraction("1.0"),
                threshold: Numeral::Negative(-25),
                factor: fraction("5.0"),
                makeup_gain: Some(whole(15)),
                soft_clip: Some(true),
                clip_limit: Some(Numeral::Negative(-2)),
            },
        })
    );
    assert_eq!(
        c.pipeline,
        Some(vec![
            PipelineStep::Mixer(PipelineStepMixer {
                name: "stereo".to_string(),
                description: Some("first".to_string()),
                bypassed: Some(false),
            }),
            PipelineStep::Filter(PipelineStepFilter {
                channels: Some(vec![1]),
                names: vec!["a".to_string(), "b".to_string()],
                description: None,
                bypassed: Some(true),
            }),
            PipelineStep::Filter(PipelineStepFilter { channels: None, names: vec![], description: None, bypassed: None }),
            PipelineStep::Processor(PipelineStepProcessor {
                name: "squeeze".to_string(),
                description: None,
                bypassed: None,
            }),
        ])
    );
    assert_eq!(
        c.devices.capture,
        CaptureDevice::SignalGenerator {
            channels: 2,
            signal: Signal::Sine { freq: whole(1000), level: fraction("-20.5") },
            labels: None,
        }
    );
}

#[test]
fn names_in_the_pipeline_need_not_be_defined() {
    let c = cycle(&document(CAPTURES[8], PLAYBACKS[6], "pipeline:\n  - {type: Mixer, name: nowhere}\n  - {type: Filter, channels: [99], names: [missing]}\n"));
    assert_eq!(c.mixers, None);
    assert_eq!(c.filters, None);
    assert_eq!(c.pipeline.unwrap().len(), 2);
}

#[test]
fn a_built_configuration_equals_the_one_read_from_the_same_document() {
    let built = Configuration {
        title: Some("built".to_string()),
        description: None,
        devices: Devices {
            samplerate: 96000,
            chunksize: 2048,
            queuelimit: None,
            silence_threshold: None,
            silence_timeout: None,
            capture: CaptureDevice::Jack { channels: 2, device: "default".to_string(), labels: None },
            playback: PlaybackDevice::Jack { channels: 2, device: "default".to_string() },
            enable_rate_adjust: None,
            target_level: Some(1024),
            adjust_period: None,
            resampler: None,
            capture_samplerate: None,
            stop_on_rate_change: None,
            rate_measure_interval: None,
            volume_ramp_time: None,
            volume_limit: None,
            multithreaded: None,
            worker_threads: None,
        },
        mixers: None,
        filters: Some(NamedMap::new().with(
            "raw".to_string(),
            Filter::Conv {
                description: None,
                parameters: dsp_config::ConvParameters::Raw(dsp_config::ConvParametersRaw {
                    filename: "f.txt".to_string(),
                    format: Some(FileFormat::TEXT),
                    skip_bytes_lines: None,
                    read_bytes_lines: None,
                }),
            },
        )),
        processors: None,
        pipeline: Some(vec![]),
    };
    let text = "pipeline: []\nfilters:\n  raw:\n    parameters:\n      format: TEXT\n      filename: f.txt\n      type: Raw\n    type: Conv\ntitle: built\ndevices:\n  target_level: 1024\n  playback: {device: default, channels: 2, type: JACK}\n  capture: {device: default, type: jack, channels: 2}\n  chunksize: 2048\n  samplerate: 96000\n";
    let read = Configuration::from_yaml_string(text).unwrap();
    assert_eq!(read, built);
    assert_eq!(read.to_yaml_string().unwrap(), built.to_yaml_string().unwrap());
    assert_eq!(
        built.to_yaml_string().unwrap(),
        "title: built\ndevices:\n  samplerate: 96000\n  chunksize: 2048\n  capture:\n    type: Jack\n    channels: 2\n    device: default\n  playback:\n    type: Jack\n    channels: 2\n    device: default\n  target_level: 1024\nfilters:\n  raw:\n    type: Conv\n    parameters:\n      type: Raw\n      filename: f.txt\n      format: TEXT\npipeline: []\n"
    );
}
