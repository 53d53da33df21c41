use dsp_config::{
    CaptureDevice, CaptureDeviceCA, Configuration, Devices, Filter, GainParameters, GainScale,
    NamedMap, Numeral, PipelineStep, PipelineStepFilter, PlaybackDevice, PlaybackDeviceCA,
    SampleFormat,
};

const SIMPLE: &str = r#"---
devices:
  samplerate: 44100
  chunksize: 1024
  target_level: 512
  enable_rate_adjust: true
  capture:
    type: Alsa
    channels: 2
    device: "hw:Loopback,0,1"
    format: S16LE
  playback:
    type: Alsa
    channels: 2
    device: "hw:Loopback,0,5"
    format: S32LE

filters:
  lowpass_fir:
    type: Conv
    parameters:
      type: Raw
      filename: filter.txt

mixers:
  monomix:
    channels:
      in: 2
      out: 2
    mapping:
      - dest: 0
        sources:
          - channel: 0
            gain: -6
            inverted: false
          - channel: 1
            gain: -6
            inverted: false
      - dest: 1
        sources:
          - channel: 0
            gain: -6
            inverted: false
          - channel: 1
            gain: -6
            inverted: false

pipeline:
  - type: Mixer
    name: monomix
  - type: Filter
    channels: [0, 1]
    names:
      - lowpass_fir
"#;

fn core_audio_config() -> Configuration {
    Configuration {
        title: Some("Test Config".to_string()),
        description: None,
        devices: Devices {
            samplerate: 48000,
            chunksize: 1024,
            queuelimit: None,
            silence_threshold: None,
            silence_timeout: None,
            capture: CaptureDevice::CoreAudio(CaptureDeviceCA {
                channels: 2,
                device: None,
                format: None,
                labels: None,
            }),
            playback: PlaybackDevice::CoreAudio(PlaybackDeviceCA {
                channels: 2,
                device: None,
                format: None,
                exclusive: None,
            }),
            enable_rate_adjust: None,
            target_level: None,
            adjust_period: None,
            resampler: None,
            capture_samplerate: None,
            stop_on_rate_change: None,
            rate_measure_interval: None,
            volume_ramp_time: None,
            volume_limit: None,
            multithreaded: None,
            worker_threads: None,
        },
        mixers: None,
        filters: Some(NamedMap::new().with(
            "my_gain".to_string(),
            Filter::Gain {
                description: Some("Volume adjustment".to_string()),
                parameters: GainParameters {
                    gain: Numeral::Real("-3.0".to_string()),
                    inverted: None,
                    mute: None,
                    scale: Some(GainScale::Decibel),
                },
            },
        )),
        processors: None,
        pipeline: Some(vec![PipelineStep::Filter(PipelineStepFilter {
            channels: Some(vec![0, 1]),
            names: vec!["my_gain".to_string()],
            description: None,
            bypassed: None,
        })]),
    }
}

#[test]
fn test_roundtrip_simpleconfig() {
    let config = Configuration::from_yaml_string(SIMPLE).expect("Failed to parse simpleconfig.yml");

    assert_eq!(config.devices.samplerate, 44100);
    assert_eq!(config.devices.chunksize, 1024);
    assert_eq!(config.devices.target_level, Some(512));
    assert_eq!(config.devices.enable_rate_adjust, Some(true));

    match &config.devices.capture {
        CaptureDevice::Alsa { channels, device, format, .. } => {
            assert_eq!(*channels, 2);
            assert_eq!(device, "hw:Loopback,0,1");
            assert_eq!(*format, Some(SampleFormat::S16LE));
        }
        _ => panic!("Expected Alsa capture device"),
    }

    match &config.devices.playback {
        PlaybackDevice::Alsa { channels, device, format, .. } => {
            assert_eq!(*channels, 2);
            assert_eq!(device, "hw:Loopback,0,5");
            assert_eq!(*format, Some(SampleFormat::S32LE));
        }
        _ => panic!("Expected Alsa playback device"),
    }

    let filters = config.filters.as_ref().expect("Expected filters");
    assert!(filters.contains_key("lowpass_fir"));

    let mixers = config.mixers.as_ref().expect("Expected mixers");
    let monomix = mixers.get("monomix").expect("Expected monomix");
    assert_eq!(monomix.channels.input, 2);
    assert_eq!(monomix.channels.out, 2);

    let pipeline = config.pipeline.as_ref().expect("Expected pipeline");
    assert_eq!(pipeline.len(), 2);

    let yaml_out = config.to_yaml_string().expect("Failed to serialize");
    let config2 = Configuration::from_yaml_string(&yaml_out).expect("Failed to re-parse");
    assert_eq!(config, config2);
}

#[test]
fn test_build_config_programmatically() {
    let config = core_audio_config();

    let yaml = config.to_yaml_string().expect("Failed to serialize");
    assert!(yaml.contains("CoreAudio"));
    assert!(yaml.contains("samplerate: 48000"));
    assert!(yaml.contains("my_gain"));

    let config2 = Configuration::from_yaml_string(&yaml).expect("Failed to re-parse");
    assert_eq!(config, config2);
}

#[test]
fn absent_fields_are_not_written() {
    let yaml = core_audio_config().to_yaml_string().unwrap();
    assert_eq!(
        yaml,
        "title: Test Config\n\
         devices:\n\
         \x20 samplerate: 48000\n\
         \x20 chunksize: 1024\n\
         \x20 capture:\n\
         \x20   type: CoreAudio\n\
         \x20   channels: 2\n\
         \x20 playback:\n\
         \x20   type: CoreAudio\n\
         \x20   channels: 2\n\
         filters:\n\
         \x20 my_gain:\n\
         \x20   type: Gain\n\
         \x20   description: Volume adjustment\n\
         \x20   parameters:\n\
         \x20     gain: -3.0\n\
         \x20     scale: dB\n\
         pipeline:\n\
         - type: Filter\n\
         \x20 channels:\n\
         \x20 - 0\n\
         \x20 - 1\n\
         \x20 names:\n\
         \x20 - my_gain\n"
    );
    assert!(!yaml.contains("null"));
    assert!(!yaml.contains("description: \n"));
    assert!(!yaml.contains("target_level"));
    assert!(!yaml.contains("mixers"));
}

#[test]
fn simple_config_is_written_in_canonical_form() {
    let config = Configuration::from_yaml_string(SIMPLE).unwrap();
    let once = config.to_yaml_string().unwrap();
    let again = Configuration::from_yaml_string(&once).unwrap().to_yaml_string().unwrap();
    assert_eq!(once, again);
    assert!(once.starts_with("devices:\n  samplerate: 44100\n  chunksize: 1024\n  capture:\n    type: Alsa\n"));
    assert!(once.contains("            gain: -6\n") || once.contains("gain: -6\n"));
}

#[test]
fn omitted_target_level_stays_absent() {
    let text = "devices:\n  samplerate: 8000\n  chunksize: 64\n  capture: {type: Jack, channels: 1, device: a}\n  playback: {type: Jack, channels: 1, device: b}\n";
    let config = Configuration::from_yaml_string(text).unwrap();
    assert_eq!(config.devices.target_level, None);
    let written = config.to_yaml_string().unwrap();
    assert!(!written.contains("target_level"));
    let again = Configuration::from_yaml_string(&written).unwrap();
    assert_eq!(again.devices.target_level, None);
    assert_eq!(again, config);
}
