use dsp_config::{
    CaptureDeviceKind, Configuration, DitherParametersKind, ErrorKind, GainScale, Node, Numeral,
    PlaybackDevice, PlaybackDeviceKind, SampleFormat, Schema, Segment, Spelled, TimeUnit,
};

fn text(s: &str) -> Node {
    Node::String(s.to_string())
}

fn count(n: u64) -> Node {
    Node::Number(Numeral::Unsigned(n))
}

fn jack(spelling: &str) -> Node {
    Node::Mapping(vec![
        (text("channels"), count(2)),
        (text("type"), text(spelling)),
        (text("device"), text("system")),
    ])
}

fn root(capture: Node) -> Node {
    Node::Mapping(vec![(
        text("devices"),
        Node::Mapping(vec![
            (text("chunksize"), count(64)),
            (text("samplerate"), count(8000)),
            (text("playback"), jack("JACK")),
            (text("capture"), capture),
        ]),
    )])
}

#[test]
fn a_tree_is_cloned_whole() {
    let n = root(jack("jack"));
    let c = n.clone();
    assert_eq!(c, n);
    assert_eq!(n.copy(), n);
    assert_eq!(Numeral::Real("1.5".to_string()).copy(), Numeral::Real("1.5".to_string()));
}

#[test]
fn a_configuration_is_read_from_a_tree_and_written_as_one() {
    let c = Configuration::from_node(&root(jack("jack"))).unwrap();
    assert_eq!(c.devices.samplerate, 8000);
    assert_eq!(c.devices.playback, PlaybackDevice::Jack { channels: 2, device: "system".to_string() });
    let written = c.to_node();
    let canonical = Node::Mapping(vec![
        (text("type"), text("Jack")),
        (text("channels"), count(2)),
        (text("device"), text("system")),
    ]);
    assert_eq!(
        written,
        Node::Mapping(vec![(
            text("devices"),
            Node::Mapping(vec![
                (text("samplerate"), count(8000)),
                (text("chunksize"), count(64)),
                (text("capture"), canonical.clone()),
                (text("playback"), canonical),
            ]),
        )])
    );
    assert_eq!(Configuration::from_node(&written).unwrap(), c);
}

#[test]
fn a_failure_in_a_tree_has_its_path() {
    let bad = Node::Mapping(vec![(text("type"), text("Jack")), (text("channels"), text("two")), (text("device"), text("d"))]);
    let e = Configuration::from_node(&root(bad)).unwrap_err();
    assert_eq!(e.kind, ErrorKind::TypeMismatch);
    assert_eq!(
        e.path,
        vec![
            Segment::Field("devices".to_string()),
            Segment::Field("capture".to_string()),
            Segment::Field("channels".to_string()),
        ]
    );
    assert_eq!(e.detail, "");
}

#[test]
fn scalars_are_read_strictly() {
    assert_eq!(usize::from_node(&count(7)).unwrap(), 7);
    assert_eq!(usize::from_node(&Node::Number(Numeral::Negative(-7))).unwrap_err().kind, ErrorKind::TypeMismatch);
    assert_eq!(usize::from_node(&Node::Number(Numeral::Real("7.0".to_string()))).unwrap_err().kind, ErrorKind::TypeMismatch);
    assert_eq!(usize::from_node(&text("7")).unwrap_err().kind, ErrorKind::TypeMismatch);
    assert_eq!(bool::from_node(&Node::Bool(true)).unwrap(), true);
    assert_eq!(bool::from_node(&text("true")).unwrap_err().kind, ErrorKind::TypeMismatch);
    assert_eq!(String::from_node(&text("x")).unwrap(), "x");
    assert_eq!(String::from_node(&Node::Null).unwrap_err().kind, ErrorKind::TypeMismatch);
    assert_eq!(Numeral::from_node(&count(3)).unwrap(), Numeral::Unsigned(3));
    assert_eq!(Numeral::from_node(&Node::Bool(false)).unwrap_err().kind, ErrorKind::TypeMismatch);
    assert_eq!(<Option<String>>::from_node(&Node::Null).unwrap(), None);
    assert_eq!(<Option<String>>::from_node(&text("L")).unwrap(), Some("L".to_string()));
    assert_eq!(<Option<String>>::from_node(&count(1)).unwrap_err().kind, ErrorKind::TypeMismatch);
    assert_eq!(7usize.to_node(), count(7));
    assert_eq!(true.to_node(), Node::Bool(true));
    assert_eq!("x".to_string().to_node(), text("x"));
    assert_eq!(None::<String>.to_node(), Node::Null);
}

#[test]
fn sequences_report_the_position_of_the_failure() {
    let n = Node::Sequence(vec![count(1), count(2), text("3"), Node::Null]);
    let e = <Vec<usize>>::from_node(&n).unwrap_err();
    assert_eq!(e.kind, ErrorKind::TypeMismatch);
    assert_eq!(e.path, vec![Segment::Index(2)]);
    assert_eq!(<Vec<usize>>::from_node(&Node::Sequence(vec![])).unwrap(), Vec::<usize>::new());
    assert_eq!(vec![1usize, 2].to_node(), Node::Sequence(vec![count(1), count(2)]));
    assert_eq!(<Vec<usize>>::from_node(&count(1)).unwrap_err().path, vec![]);
}

#[test]
fn words_are_written_in_one_spelling() {
    assert_eq!(GainScale::Decibel.as_str(), "dB");
    assert_eq!(GainScale::Linear.as_str(), "linear");
    assert_eq!(GainScale::from_name("dB"), Some(GainScale::Decibel));
    assert_eq!(GainScale::from_name("db"), None);
    assert_eq!(GainScale::from_name("Decibel"), None);
    assert_eq!(TimeUnit::from_name("mm"), Some(TimeUnit::Millimetres));
    assert_eq!(TimeUnit::Samples.to_node(), text("samples"));
    assert_eq!(SampleFormat::from_node(&text("S24LE3")).unwrap(), SampleFormat::S24LE3);
    assert_eq!(SampleFormat::from_node(&text("s24le3")).unwrap_err().kind, ErrorKind::UnrecognizedDiscriminant);
    assert_eq!(SampleFormat::from_node(&count(16)).unwrap_err().kind, ErrorKind::TypeMismatch);
    assert_eq!(DitherParametersKind::NoDither.as_str(), "None");
    assert_eq!(DitherParametersKind::from_name("None"), Some(DitherParametersKind::NoDither));
    assert_eq!(DitherParametersKind::from_name("NoDither"), None);
}

#[test]
fn discriminants_of_devices_are_read_in_three_spellings() {
    for (spellings, kind) in [
        (["Alsa", "ALSA", "alsa"], CaptureDeviceKind::Alsa),
        (["Bluez", "BLUEZ", "bluez"], CaptureDeviceKind::Bluez),
        (["Pulse", "PULSE", "pulse"], CaptureDeviceKind::Pulse),
        (["Stdin", "STDIN", "stdin"], CaptureDeviceKind::Stdin),
        (["CoreAudio", "COREAUDIO", "coreaudio"], CaptureDeviceKind::CoreAudio),
        (["Wasapi", "WASAPI", "wasapi"], CaptureDeviceKind::Wasapi),
        (["Jack", "JACK", "jack"], CaptureDeviceKind::Jack),
    ] {
        for s in spellings {
            assert_eq!(CaptureDeviceKind::from_name(s), Some(kind));
        }
        assert_eq!(kind.as_str(), spellings[0]);
    }
    for (name, kind) in [
        ("RawFile", CaptureDeviceKind::RawFile),
        ("WavFile", CaptureDeviceKind::WavFile),
        ("SignalGenerator", CaptureDeviceKind::SignalGenerator),
    ] {
        assert_eq!(CaptureDeviceKind::from_name(name), Some(kind));
        assert_eq!(CaptureDeviceKind::from_name(&name.to_uppercase()), None);
        assert_eq!(CaptureDeviceKind::from_name(&name.to_lowercase()), None);
    }
    for (spellings, kind) in [
        (["Alsa", "ALSA", "alsa"], PlaybackDeviceKind::Alsa),
        (["Pulse", "PULSE", "pulse"], PlaybackDeviceKind::Pulse),
        (["File", "FILE", "file"], PlaybackDeviceKind::File),
        (["Stdout", "STDOUT", "stdout"], PlaybackDeviceKind::Stdout),
        (["CoreAudio", "COREAUDIO", "coreaudio"], PlaybackDeviceKind::CoreAudio),
        (["Wasapi", "WASAPI", "wasapi"], PlaybackDeviceKind::Wasapi),
        (["Jack", "JACK", "jack"], PlaybackDeviceKind::Jack),
    ] {
        for s in spellings {
            assert_eq!(PlaybackDeviceKind::from_name(s), Some(kind));
        }
        assert_eq!(kind.as_str(), spellings[0]);
    }
    assert_eq!(PlaybackDeviceKind::from_name("Stdin"), None);
    let c = Configuration::from_node(&root(jack("Jack"))).unwrap();
    assert_eq!(c.devices.capture.kind(), CaptureDeviceKind::Jack);
    assert_eq!(c.devices.playback.kind(), PlaybackDeviceKind::Jack);
}
