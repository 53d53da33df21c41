use dsp_config::{Configuration, ErrorKind, SchemaError, Segment};

const DEVICES: &str = "devices:\n  samplerate: 44100\n  chunksize: 1024\n  capture:\n    type: Alsa\n    channels: 2\n    device: in\n  playback:\n    type: Alsa\n    channels: 2\n    device: out\n";

fn failure(text: &str) -> SchemaError {
    match Configuration::from_yaml_string(text) {
        Ok(c) => panic!("read as {:?}", c),
        Err(e) => e,
    }
}

fn path(e: &SchemaError) -> Vec<String> {
    e.path
        .iter()
        .map(|s| match s {
            Segment::Field(name) => name.clone(),
            Segment::Index(i) => format!("[{}]", i),
        })
        .collect()
}

#[test]
fn devices_alone_are_a_configuration() {
    let c = Configuration::from_yaml_string(DEVICES).unwrap();
    assert_eq!(c.title, None);
    assert_eq!(c.mixers, None);
    assert_eq!(c.pipeline, None);
    assert_eq!(c.devices.chunksize, 1024);
}

#[test]
fn unknown_field_at_the_root() {
    let e = failure(&format!("{}colour: red\n", DEVICES));
    assert_eq!(e.kind, ErrorKind::UnknownField);
    assert_eq!(path(&e), vec!["colour"]);
}

#[test]
fn unknown_field_in_devices() {
    let e = failure(&format!("{}  sample_rate: 48000\n", DEVICES));
    assert_eq!(e.kind, ErrorKind::UnknownField);
    assert_eq!(path(&e), vec!["devices", "sample_rate"]);
}

#[test]
fn unknown_field_in_a_device_variant() {
    let text = DEVICES.replace("    device: in\n", "    device: in\n    exclusive: true\n");
    let e = failure(&text);
    assert_eq!(e.kind, ErrorKind::UnknownField);
    assert_eq!(path(&e), vec!["devices", "capture", "exclusive"]);
}

#[test]
fn unknown_field_in_a_filter_parameter_record() {
    let text = format!(
        "{}filters:\n  trim:\n    type: Gain\n    parameters:\n      gain: 1\n      gian: 2\n",
        DEVICES
    );
    let e = failure(&text);
    assert_eq!(e.kind, ErrorKind::UnknownField);
    assert_eq!(path(&e), vec!["filters", "trim", "parameters", "gian"]);
}

#[test]
fn unknown_field_beside_the_parameters_of_a_filter() {
    let text = format!(
        "{}filters:\n  trim:\n    type: Gain\n    parameters:\n      gain: 1\n    note: x\n",
        DEVICES
    );
    let e = failure(&text);
    assert_eq!(e.kind, ErrorKind::UnknownField);
    assert_eq!(path(&e), vec!["filters", "trim", "note"]);
}

#[test]
fn unknown_field_in_a_mixer_mapping() {
    let text = format!(
        "{}mixers:\n  mono:\n    channels: {{in: 2, out: 1}}\n    mapping:\n      - dest: 0\n        sources: []\n      - dest: 0\n        sources: []\n        gain: 3\n",
        DEVICES
    );
    let e = failure(&text);
    assert_eq!(e.kind, ErrorKind::UnknownField);
    assert_eq!(path(&e), vec!["mixers", "mono", "mapping", "[1]", "gain"]);
}

#[test]
fn unknown_field_in_a_mixer_source() {
    let text = format!(
        "{}mixers:\n  mono:\n    channels: {{in: 2, out: 1}}\n    mapping:\n      - dest: 0\n        sources:\n          - channel: 0\n          - channel: 1\n            weight: 2\n",
        DEVICES
    );
    let e = failure(&text);
    assert_eq!(e.kind, ErrorKind::UnknownField);
    assert_eq!(path(&e), vec!["mixers", "mono", "mapping", "[0]", "sources", "[1]", "weight"]);
}

#[test]
fn unknown_field_in_a_pipeline_step() {
    let text = format!("{}pipeline:\n  - type: Mixer\n    name: mono\n    channels: [0]\n", DEVICES);
    let e = failure(&text);
    assert_eq!(e.kind, ErrorKind::UnknownField);
    assert_eq!(path(&e), vec!["pipeline", "[0]", "channels"]);
}

#[test]
fn unknown_field_in_a_variant_without_fields() {
    let text = format!("{}  resampler:\n    type: Synchronous\n    profile: Fast\n", DEVICES);
    let e = failure(&text);
    assert_eq!(e.kind, ErrorKind::UnknownField);
    assert_eq!(path(&e), vec!["devices", "resampler", "profile"]);
}

#[test]
fn the_first_unknown_key_of_the_document_is_reported() {
    let e = failure(&format!("zeta: 1\nalpha: 2\n{}", DEVICES));
    assert_eq!(path(&e), vec!["zeta"]);
}

#[test]
fn an_unknown_key_is_reported_before_a_missing_field() {
    let e = failure("title: t\nextra: 1\n");
    assert_eq!(e.kind, ErrorKind::UnknownField);
    assert_eq!(path(&e), vec!["extra"]);
}

#[test]
fn missing_devices() {
    let e = failure("title: nothing else\n");
    assert_eq!(e.kind, ErrorKind::MissingRequiredField);
    assert_eq!(path(&e), vec!["devices"]);
}

#[test]
fn missing_samplerate() {
    let e = failure(&DEVICES.replace("  samplerate: 44100\n", ""));
    assert_eq!(e.kind, ErrorKind::MissingRequiredField);
    assert_eq!(path(&e), vec!["devices", "samplerate"]);
}

#[test]
fn missing_field_of_a_device_variant() {
    let e = failure(&DEVICES.replace("    device: in\n", ""));
    assert_eq!(e.kind, ErrorKind::MissingRequiredField);
    assert_eq!(path(&e), vec!["devices", "capture", "device"]);
}

#[test]
fn missing_discriminant() {
    let e = failure(&DEVICES.replace("    type: Alsa\n    channels: 2\n    device: in\n", "    channels: 2\n    device: in\n"));
    assert_eq!(e.kind, ErrorKind::MissingRequiredField);
    assert_eq!(path(&e), vec!["devices", "capture", "type"]);
}

#[test]
fn missing_clip_limit_of_a_limiter() {
    let text = format!("{}filters:\n  l:\n    type: Limiter\n    parameters:\n      soft_clip: true\n", DEVICES);
    let e = failure(&text);
    assert_eq!(e.kind, ErrorKind::MissingRequiredField);
    assert_eq!(path(&e), vec!["filters", "l", "parameters", "clip_limit"]);
}

#[test]
fn unrecognized_device() {
    let e = failure(&DEVICES.replace("    type: Alsa\n    channels: 2\n    device: in\n", "    type: Oss\n    channels: 2\n    device: in\n"));
    assert_eq!(e.kind, ErrorKind::UnrecognizedDiscriminant);
    assert_eq!(path(&e), vec!["devices", "capture", "type"]);
}

#[test]
fn a_spelling_in_mixed_case_is_not_an_alias() {
    let e = failure(&DEVICES.replace("    type: Alsa\n    channels: 2\n    device: in\n", "    type: aLSA\n    channels: 2\n    device: in\n"));
    assert_eq!(e.kind, ErrorKind::UnrecognizedDiscriminant);
    assert_eq!(path(&e), vec!["devices", "capture", "type"]);
}

#[test]
fn a_device_without_aliases_is_read_in_one_spelling_only() {
    let text = DEVICES.replace(
        "    type: Alsa\n    channels: 2\n    device: in\n",
        "    type: wavfile\n    filename: a.wav\n",
    );
    let e = failure(&text);
    assert_eq!(e.kind, ErrorKind::UnrecognizedDiscriminant);
    assert_eq!(path(&e), vec!["devices", "capture", "type"]);
}

#[test]
fn unrecognized_sample_format() {
    let e = failure(&DEVICES.replace("    device: in\n", "    device: in\n    format: S8\n"));
    assert_eq!(e.kind, ErrorKind::UnrecognizedDiscriminant);
    assert_eq!(path(&e), vec!["devices", "capture", "format"]);
}

#[test]
fn a_discriminant_that_is_no_text() {
    let e = failure(&DEVICES.replace("    type: Alsa\n    channels: 2\n    device: in\n", "    type: 7\n    channels: 2\n    device: in\n"));
    assert_eq!(e.kind, ErrorKind::TypeMismatch);
    assert_eq!(path(&e), vec!["devices", "capture", "type"]);
}

#[test]
fn text_where_a_number_is_required() {
    let e = failure(&DEVICES.replace("samplerate: 44100", "samplerate: fast"));
    assert_eq!(e.kind, ErrorKind::TypeMismatch);
    assert_eq!(path(&e), vec!["devices", "samplerate"]);
}

#[test]
fn a_quoted_number_is_text() {
    let e = failure(&DEVICES.replace("samplerate: 44100", "samplerate: \"44100\""));
    assert_eq!(e.kind, ErrorKind::TypeMismatch);
    assert_eq!(path(&e), vec!["devices", "samplerate"]);
}

#[test]
fn a_negative_count() {
    let e = failure(&DEVICES.replace("samplerate: 44100", "samplerate: -1"));
    assert_eq!(e.kind, ErrorKind::TypeMismatch);
    assert_eq!(path(&e), vec!["devices", "samplerate"]);
}

#[test]
fn a_fraction_where_a_count_is_required() {
    let e = failure(&DEVICES.replace("samplerate: 44100", "samplerate: 44100.0"));
    assert_eq!(e.kind, ErrorKind::TypeMismatch);
    assert_eq!(path(&e), vec!["devices", "samplerate"]);
}

#[test]
fn a_whole_number_beyond_64_bits_is_no_yaml_number() {
    let e = failure(&DEVICES.replace("samplerate: 44100", "samplerate: 18446744073709551616"));
    assert_eq!(e.kind, ErrorKind::Malformed);
    assert!(e.path.is_empty());
}

#[test]
fn the_largest_count() {
    let c = Configuration::from_yaml_string(&DEVICES.replace("samplerate: 44100", "samplerate: 18446744073709551615")).unwrap();
    assert_eq!(c.devices.samplerate, usize::MAX);
    let again = Configuration::from_yaml_string(&c.to_yaml_string().unwrap()).unwrap();
    assert_eq!(again.devices.samplerate, usize::MAX);
}

#[test]
fn a_number_where_text_is_required() {
    let e = failure(&DEVICES.replace("device: in", "device: 5"));
    assert_eq!(e.kind, ErrorKind::TypeMismatch);
    assert_eq!(path(&e), vec!["devices", "capture", "device"]);
}

#[test]
fn a_null_is_no_absence() {
    let e = failure(&format!("{}  target_level: null\n", DEVICES));
    assert_eq!(e.kind, ErrorKind::TypeMismatch);
    assert_eq!(path(&e), vec!["devices", "target_level"]);
    let e = failure(&format!("title: ~\n{}", DEVICES));
    assert_eq!(e.kind, ErrorKind::TypeMismatch);
    assert_eq!(path(&e), vec!["title"]);
}

#[test]
fn a_truth_value_must_be_one() {
    let e = failure(&format!("{}  enable_rate_adjust: 1\n", DEVICES));
    assert_eq!(e.kind, ErrorKind::TypeMismatch);
    assert_eq!(path(&e), vec!["devices", "enable_rate_adjust"]);
}

#[test]
fn a_sequence_where_a_mapping_is_required() {
    let e = failure("devices: [1, 2]\n");
    assert_eq!(e.kind, ErrorKind::TypeMismatch);
    assert_eq!(path(&e), vec!["devices"]);
}

#[test]
fn a_mapping_where_a_sequence_is_required() {
    let e = failure(&format!("{}pipeline:\n  type: Mixer\n  name: m\n", DEVICES));
    assert_eq!(e.kind, ErrorKind::TypeMismatch);
    assert_eq!(path(&e), vec!["pipeline"]);
}

#[test]
fn a_document_that_is_no_mapping() {
    for text in ["", "just text", "- 1\n- 2\n", "42"] {
        let e = failure(text);
        assert_eq!(e.kind, ErrorKind::TypeMismatch, "{:?}", text);
        assert!(e.path.is_empty());
    }
}

#[test]
fn the_first_item_that_fails_is_reported() {
    let text = format!(
        "{}pipeline:\n  - type: Mixer\n    name: a\n  - type: Mixer\n  - type: Nothing\n",
        DEVICES
    );
    let e = failure(&text);
    assert_eq!(e.kind, ErrorKind::MissingRequiredField);
    assert_eq!(path(&e), vec!["pipeline", "[1]", "name"]);
}

#[test]
fn text_that_is_no_yaml() {
    let e = failure("devices: [1, 2\n");
    assert_eq!(e.kind, ErrorKind::Malformed);
    assert!(e.path.is_empty());
    assert!(!e.detail.is_empty());
}

#[test]
fn more_than_one_document() {
    let e = failure(&format!("{}---\n{}", DEVICES, DEVICES));
    assert_eq!(e.kind, ErrorKind::Malformed);
}

#[test]
fn a_key_twice() {
    let e = failure(&format!("{}title: a\ntitle: b\n", DEVICES));
    assert_eq!(e.kind, ErrorKind::Malformed);
    assert!(e.detail.contains("duplicate"));
}

#[test]
fn a_tagged_value() {
    let e = failure(&DEVICES.replace("samplerate: 44100", "samplerate: !rate 44100"));
    assert_eq!(e.kind, ErrorKind::Malformed);
    assert!(e.path.is_empty());
    assert!(e.detail.contains("tagged"));
}

#[test]
fn failures_in_words() {
    let e = failure("devices: [1, 2]\n");
    assert_eq!(e.message(), "type mismatch at devices");
    let e = failure(&DEVICES.replace("    type: Alsa\n    channels: 2\n    device: in\n", "    type: Oss\n    channels: 2\n    device: in\n"));
    assert_eq!(e.message(), "unrecognized discriminant at devices.capture.type");
    let e = failure(&format!("{}pipeline:\n  - type: Mixer\n    name: a\n  - type: Mixer\n", DEVICES));
    assert_eq!(e.message(), "missing required field at pipeline[1].name");
    let e = failure("42");
    assert_eq!(e.message(), "type mismatch");
    let e = failure(&format!("{}colour: red\n", DEVICES));
    assert_eq!(e.message(), "unknown field at colour");
    let e = failure(&format!(
        "{}filters:\n  f:\n    type: Biquad\n    parameters: {{type: Notch, freq: 1}}\n",
        DEVICES
    ));
    assert_eq!(
        e.message(),
        "no variant matched at filters.f.parameters: Q {freq, q} | Bandwidth {freq, bandwidth}"
    );
    let e = failure("a: [");
    assert!(e.message().starts_with("malformed document: "));
}

#[test]
fn positions_in_words() {
    let mut e = dsp_config::SchemaError::here(ErrorKind::TypeMismatch);
    for i in [0usize, 7, 10, 99, 100, 4096, usize::MAX] {
        e = e.under(Segment::Index(i));
    }
    assert_eq!(e.message(), format!("type mismatch at [{}][4096][100][99][10][7][0]", usize::MAX));
    let e = e.under_field("x").under(Segment::Index(3)).under_field("y");
    assert_eq!(e.message(), format!("type mismatch at y[3].x[{}][4096][100][99][10][7][0]", usize::MAX));
    assert_eq!(dsp_config::text::decimal_text(0), "0");
    assert_eq!(dsp_config::text::decimal_text(1203), "1203");
}
