use dsp_config::{
    AsyncSincInterpolation, AsyncSincParameters, AsyncSincProfile, AsyncSincWindow,
    BiquadParameters, CaptureDevice, Configuration, DitherParameters, ErrorKind, Filter, NotchWidth,
    Numeral, PeakingWidth, PlaybackDevice, Resampler, SchemaError, Segment, ShelfSteepness,
};

fn with_capture(kind: &str) -> String {
    format!(
        "devices:\n  samplerate: 48000\n  chunksize: 256\n  capture:\n    channels: 2\n    type: {}\n    device: in\n  playback:\n    type: Jack\n    channels: 2\n    device: out\n",
        kind
    )
}

fn with_filter(body: &str) -> String {
    format!("{}filters:\n  f:\n{}", with_capture("Alsa"), body)
}

fn filter(body: &str) -> Result<Filter, SchemaError> {
    Configuration::from_yaml_string(&with_filter(body))
        .map(|c| c.filters.unwrap().get("f").unwrap().clone())
}

fn biquad(parameters: &str) -> Result<BiquadParameters, SchemaError> {
    match filter(&format!("    type: Biquad\n    parameters: {}\n", parameters))? {
        Filter::Biquad { parameters, .. } => Ok(parameters),
        other => panic!("{:?}", other),
    }
}

fn names(e: &SchemaError) -> Vec<String> {
    e.path
        .iter()
        .map(|s| match s {
            Segment::Field(name) => name.clone(),
            Segment::Index(i) => i.to_string(),
        })
        .collect()
}

fn whole(n: u64) -> Numeral {
    Numeral::Unsigned(n)
}

fn fraction(text: &str) -> Numeral {
    Numeral::Real(text.to_string())
}

#[test]
fn the_spellings_of_alsa_give_the_same_value() {
    let canonical = Configuration::from_yaml_string(&with_capture("Alsa")).unwrap();
    let small = Configuration::from_yaml_string(&with_capture("alsa")).unwrap();
    let capitals = Configuration::from_yaml_string(&with_capture("ALSA")).unwrap();
    assert_eq!(canonical, small);
    assert_eq!(canonical, capitals);
    assert!(matches!(small.devices.capture, CaptureDevice::Alsa { channels: 2, .. }));
}

#[test]
fn an_alias_is_written_in_the_canonical_spelling() {
    let text = with_capture("ALSA").replace("type: Jack", "type: jack");
    let c = Configuration::from_yaml_string(&text).unwrap();
    assert!(matches!(c.devices.playback, PlaybackDevice::Jack { .. }));
    let written = c.to_yaml_string().unwrap();
    assert!(written.contains("type: Alsa\n"));
    assert!(written.contains("type: Jack\n"));
    assert!(!written.contains("ALSA"));
    assert!(!written.contains("jack"));
    assert_eq!(Configuration::from_yaml_string(&written).unwrap(), c);
}

#[test]
fn every_device_with_aliases_is_read_in_three_spellings() {
    for (kind, rest) in [
        ("Bluez", "dbus_path: /p\n    format: S16LE\n    channels: 2"),
        ("Pulse", "device: d\n    format: S16LE\n    channels: 2"),
        ("Stdin", "format: S16LE\n    channels: 2"),
        ("CoreAudio", "channels: 2"),
        ("Wasapi", "format: S16LE\n    channels: 2"),
        ("Jack", "device: d\n    channels: 2"),
    ] {
        let mut seen = Vec::new();
        for spelling in [kind.to_string(), kind.to_uppercase(), kind.to_lowercase()] {
            let text = format!(
                "devices:\n  samplerate: 1\n  chunksize: 1\n  capture:\n    type: {}\n    {}\n  playback:\n    type: STDOUT\n    channels: 1\n    format: S24LE3\n",
                spelling, rest
            );
            seen.push(Configuration::from_yaml_string(&text).expect(&spelling));
        }
        assert_eq!(seen[0], seen[1]);
        assert_eq!(seen[0], seen[2]);
        assert!(seen[0].to_yaml_string().unwrap().contains(&format!("type: {}\n", kind)));
        assert!(seen[0].to_yaml_string().unwrap().contains("type: Stdout\n"));
    }
}

#[test]
fn a_peak_by_its_quality() {
    let p = biquad("{type: Peaking, freq: 1000, q: 0.7, gain: -3}").unwrap();
    assert_eq!(
        p,
        BiquadParameters::Peaking(PeakingWidth::Q {
            freq: whole(1000),
            q: fraction("0.7"),
            gain: Numeral::Negative(-3),
        })
    );
}

#[test]
fn a_peak_by_its_bandwidth() {
    let p = biquad("{type: Peaking, freq: 1000, bandwidth: 2, gain: -3}").unwrap();
    assert_eq!(
        p,
        BiquadParameters::Peaking(PeakingWidth::Bandwidth {
            freq: whole(1000),
            bandwidth: whole(2),
            gain: Numeral::Negative(-3),
        })
    );
}

#[test]
fn a_peak_by_both_fits_no_shape() {
    let e = biquad("{type: Peaking, freq: 1000, q: 1, bandwidth: 2, gain: -3}").unwrap_err();
    assert_eq!(e.kind, ErrorKind::NoVariantMatched);
    assert_eq!(names(&e), vec!["filters", "f", "parameters"]);
    assert_eq!(e.detail, "Q {freq, q, gain} | Bandwidth {freq, bandwidth, gain}");
}

#[test]
fn a_peak_by_neither_fits_no_shape() {
    let e = biquad("{type: Peaking, freq: 1000, gain: -3}").unwrap_err();
    assert_eq!(e.kind, ErrorKind::NoVariantMatched);
    let e = biquad("{type: Peaking, freq: 1000, q: 1, gain: -3, slope: 6}").unwrap_err();
    assert_eq!(e.kind, ErrorKind::NoVariantMatched);
}

#[test]
fn a_shape_is_chosen_by_the_keys_and_then_held_to() {
    let e = biquad("{type: Peaking, freq: low, q: 1, gain: -3}").unwrap_err();
    assert_eq!(e.kind, ErrorKind::TypeMismatch);
    assert_eq!(names(&e), vec!["filters", "f", "parameters", "freq"]);
}

#[test]
fn a_peak_is_written_with_the_keys_of_its_shape() {
    let text = with_filter("    type: Biquad\n    parameters: {type: Peaking, freq: 1000, bandwidth: 2, gain: -3}\n");
    let written = Configuration::from_yaml_string(&text).unwrap().to_yaml_string().unwrap();
    assert!(written.contains("      type: Peaking\n      freq: 1000\n      bandwidth: 2\n      gain: -3\n"));
    assert!(!written.contains(" q:"));
}

#[test]
fn shelves_and_notches_by_either_shape() {
    assert_eq!(
        biquad("{type: Highshelf, freq: 1, slope: 6, gain: 2}").unwrap(),
        BiquadParameters::Highshelf(ShelfSteepness::Slope { freq: whole(1), slope: whole(6), gain: whole(2) })
    );
    assert_eq!(
        biquad("{type: Lowshelf, freq: 1, q: 6, gain: 2}").unwrap(),
        BiquadParameters::Lowshelf(ShelfSteepness::Q { freq: whole(1), q: whole(6), gain: whole(2) })
    );
    assert_eq!(
        biquad("{type: Notch, freq: 1, bandwidth: 6}").unwrap(),
        BiquadParameters::Notch(NotchWidth::Bandwidth { freq: whole(1), bandwidth: whole(6) })
    );
    assert_eq!(
        biquad("{type: Allpass, freq: 1, q: 6}").unwrap(),
        BiquadParameters::Allpass(NotchWidth::Q { freq: whole(1), q: whole(6) })
    );
    let e = biquad("{type: Bandpass, freq: 1, q: 6, gain: 1}").unwrap_err();
    assert_eq!(e.kind, ErrorKind::NoVariantMatched);
    assert_eq!(e.detail, "Q {freq, q} | Bandwidth {freq, bandwidth}");
}

#[test]
fn variants_with_the_same_fields_are_told_apart_by_the_discriminant() {
    assert_eq!(
        biquad("{type: Highpass, freq: 80, q: 0.5}").unwrap(),
        BiquadParameters::Highpass { freq: whole(80), q: fraction("0.5") }
    );
    assert_eq!(
        biquad("{type: Lowpass, freq: 80, q: 0.5}").unwrap(),
        BiquadParameters::Lowpass { freq: whole(80), q: fraction("0.5") }
    );
    assert_eq!(biquad("{type: AllpassFO, freq: 80}").unwrap(), BiquadParameters::AllpassFO { freq: whole(80) });
    assert_eq!(biquad("{type: LowpassFO, freq: 80}").unwrap(), BiquadParameters::LowpassFO { freq: whole(80) });
}

#[test]
fn dither_without_noise_is_spelled_none() {
    let f = filter("    type: Dither\n    parameters: {type: None, bits: 16}\n").unwrap();
    assert_eq!(f, Filter::Dither { description: None, parameters: DitherParameters::NoDither { bits: 16 } });
    let text = with_filter("    type: Dither\n    parameters: {type: None, bits: 16}\n");
    let written = Configuration::from_yaml_string(&text).unwrap().to_yaml_string().unwrap();
    assert!(written.contains("      type: None\n      bits: 16\n"));
}

#[test]
fn flat_dither_has_an_amplitude() {
    let f = filter("    type: Dither\n    parameters: {type: Flat, bits: 16, amplitude: 2}\n").unwrap();
    assert_eq!(
        f,
        Filter::Dither { description: None, parameters: DitherParameters::Flat { bits: 16, amplitude: whole(2) } }
    );
    let e = filter("    type: Dither\n    parameters: {type: Shibata48, bits: 16, amplitude: 2}\n").unwrap_err();
    assert_eq!(e.kind, ErrorKind::UnknownField);
    assert_eq!(names(&e), vec!["filters", "f", "parameters", "amplitude"]);
}

#[test]
fn a_sinc_resampler_by_profile_or_in_full() {
    let base = with_capture("Alsa");
    let c = Configuration::from_yaml_string(&format!("{}  resampler: {{type: AsyncSinc, profile: Balanced}}\n", base)).unwrap();
    assert_eq!(
        c.devices.resampler,
        Some(Resampler::AsyncSinc(AsyncSincParameters::Profile { profile: AsyncSincProfile::Balanced }))
    );
    let c = Configuration::from_yaml_string(&format!(
        "{}  resampler: {{type: AsyncSinc, sinc_len: 128, interpolation: Cubic, window: Hann2, oversampling_factor: 256}}\n",
        base
    ))
    .unwrap();
    assert_eq!(
        c.devices.resampler,
        Some(Resampler::AsyncSinc(AsyncSincParameters::Free {
            sinc_len: 128,
            interpolation: AsyncSincInterpolation::Cubic,
            window: AsyncSincWindow::Hann2,
            f_cutoff: None,
            oversampling_factor: 256,
        }))
    );
    let e = Configuration::from_yaml_string(&format!(
        "{}  resampler: {{type: AsyncSinc, profile: Fast, sinc_len: 128}}\n",
        base
    ))
    .unwrap_err();
    assert_eq!(e.kind, ErrorKind::NoVariantMatched);
    assert_eq!(names(&e), vec!["devices", "resampler"]);
    assert_eq!(
        e.detail,
        "Profile {profile} | Free {sinc_len, interpolation, window, f_cutoff?, oversampling_factor}"
    );
    let c = Configuration::from_yaml_string(&format!("{}  resampler: {{type: Synchronous}}\n", base)).unwrap();
    assert_eq!(c.devices.resampler, Some(Resampler::Synchronous));
    assert!(c.to_yaml_string().unwrap().contains("  resampler:\n    type: Synchronous\n"));
}

#[test]
fn numbers_are_kept_as_written() {
    let f = filter("    type: Conv\n    parameters: {type: Values, values: [1, -2, 0.5, 1e3, .inf, -.inf, .nan, 0x10, -0.0]}\n").unwrap();
    match f {
        Filter::Conv { parameters: dsp_config::ConvParameters::Values { values }, .. } => {
            assert_eq!(
                values,
                vec![
                    whole(1),
                    Numeral::Negative(-2),
                    fraction("0.5"),
                    fraction("1000.0"),
                    fraction(".inf"),
                    fraction("-.inf"),
                    fraction(".nan"),
                    whole(16),
                    fraction("-0.0"),
                ]
            );
        }
        other => panic!("{:?}", other),
    }
}

#[test]
fn numbers_are_written_as_kept() {
    let text = with_filter("    type: Conv\n    parameters: {type: Values, values: [1, -2, 0.5, 1e3, .inf, -.inf, .nan]}\n");
    let c = Configuration::from_yaml_string(&text).unwrap();
    let written = c.to_yaml_string().unwrap();
    assert!(written.contains("      values:\n      - 1\n      - -2\n      - 0.5\n      - 1000.0\n      - .inf\n      - -.inf\n      - .nan\n"));
    assert_eq!(Configuration::from_yaml_string(&written).unwrap(), c);
}

#[test]
fn a_number_whose_text_is_none_is_not_written() {
    let text = with_filter("    type: Gain\n    parameters: {gain: 1}\n");
    let mut c = Configuration::from_yaml_string(&text).unwrap();
    c.filters = Some(dsp_config::NamedMap::new().with(
        "f".to_string(),
        Filter::Gain {
            description: None,
            parameters: dsp_config::GainParameters {
                gain: fraction("loud"),
                inverted: None,
                mute: None,
                scale: None,
            },
        },
    ));
    let e = c.to_yaml_string().unwrap_err();
    assert_eq!(e.kind, ErrorKind::Malformed);
    assert!(e.path.is_empty());
}

#[test]
fn text_that_looks_like_a_number_is_written_as_text() {
    let text = format!("title: \"123\"\ndescription: \"true\"\n{}", with_capture("Alsa"));
    let c = Configuration::from_yaml_string(&text).unwrap();
    assert_eq!(c.title.as_deref(), Some("123"));
    assert_eq!(c.description.as_deref(), Some("true"));
    let again = Configuration::from_yaml_string(&c.to_yaml_string().unwrap()).unwrap();
    assert_eq!(again, c);
}

#[test]
fn labels_may_be_null() {
    let text = with_capture("Alsa").replace("    device: in\n", "    device: in\n    labels: [L, null, R]\n");
    let c = Configuration::from_yaml_string(&text).unwrap();
    match &c.devices.capture {
        CaptureDevice::Alsa { labels, .. } => {
            assert_eq!(labels, &Some(vec![Some("L".to_string()), None, Some("R".to_string())]));
        }
        other => panic!("{:?}", other),
    }
    let written = c.to_yaml_string().unwrap();
    assert!(written.contains("    labels:\n    - L\n    - null\n    - R\n"));
    assert_eq!(Configuration::from_yaml_string(&written).unwrap(), c);
}
