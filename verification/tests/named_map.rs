use dsp_config::{
    Configuration, ErrorKind, Filter, GainParameters, Mixer, MixerChannels, NamedMap, Node, Numeral,
    Schema,
};

fn gain(n: u64) -> Filter {
    Filter::Gain {
        description: None,
        parameters: GainParameters { gain: Numeral::Unsigned(n), inverted: None, mute: None, scale: None },
    }
}

fn text(s: &str) -> Node {
    Node::String(s.to_string())
}

#[test]
fn a_new_map_is_empty() {
    let m: NamedMap<Filter> = NamedMap::new();
    assert!(m.is_empty());
    assert_eq!(m.len(), 0);
    assert!(!m.contains_key("a"));
    assert!(m.get("a").is_none());
    assert_eq!(m.position("a"), None);
}

#[test]
fn entries_keep_the_order_of_insertion() {
    let mut m = NamedMap::new();
    m.insert("z".to_string(), gain(1));
    m.insert("a".to_string(), gain(2));
    m.insert("m".to_string(), gain(3));
    assert_eq!(m.len(), 3);
    assert!(!m.is_empty());
    assert_eq!(m.name(0), "z");
    assert_eq!(m.name(1), "a");
    assert_eq!(m.name(2), "m");
    assert_eq!(m.value(1), &gain(2));
    assert_eq!(m.position("m"), Some(2));
    assert_eq!(m.get("a"), Some(&gain(2)));
    assert!(m.contains_key("z"));
    assert!(!m.contains_key("b"));
}

#[test]
fn a_name_that_is_there_gets_the_new_value_in_its_place() {
    let m = NamedMap::new().with("a".to_string(), gain(1)).with("b".to_string(), gain(2));
    let m = m.with("a".to_string(), gain(9));
    assert_eq!(m.len(), 2);
    assert_eq!(m.name(0), "a");
    assert_eq!(m.value(0), &gain(9));
    assert_eq!(m.value(1), &gain(2));
    let mut n = NamedMap::new();
    n.insert("a".to_string(), gain(9));
    n.insert("b".to_string(), gain(2));
    assert_eq!(m, n);
}

#[test]
fn maps_with_another_order_are_not_equal() {
    let ab = NamedMap::new().with("a".to_string(), gain(1)).with("b".to_string(), gain(2));
    let ba = NamedMap::new().with("b".to_string(), gain(2)).with("a".to_string(), gain(1));
    assert_ne!(ab, ba);
    assert_eq!(ab.clone(), ab);
}

#[test]
fn named_values_are_written_in_their_order_and_read_back() {
    let m = NamedMap::new().with("z".to_string(), gain(1)).with("a".to_string(), gain(2));
    let n = m.to_node();
    match &n {
        Node::Mapping(entries) => {
            assert_eq!(entries.len(), 2);
            assert_eq!(entries[0].0, text("z"));
            assert_eq!(entries[1].0, text("a"));
            assert_eq!(entries[1].1, gain(2).to_node());
        }
        other => panic!("{:?}", other),
    }
    assert_eq!(NamedMap::<Filter>::from_node(&n).unwrap(), m);
}

#[test]
fn the_failure_of_a_named_value_is_under_its_name() {
    let n = Node::Mapping(vec![(text("good"), gain(1).to_node()), (text("bad"), Node::Null)]);
    let e = NamedMap::<Filter>::from_node(&n).unwrap_err();
    assert_eq!(e.kind, ErrorKind::TypeMismatch);
    assert_eq!(e.path, vec![dsp_config::Segment::Field("bad".to_string())]);
}

#[test]
fn a_mapping_with_a_key_twice_is_no_record() {
    let n = Node::Mapping(vec![(text("a"), gain(1).to_node()), (text("a"), gain(2).to_node())]);
    let e = NamedMap::<Filter>::from_node(&n).unwrap_err();
    assert_eq!(e.kind, ErrorKind::TypeMismatch);
    assert!(e.path.is_empty());
    let channels = Node::Mapping(vec![
        (text("in"), Node::Number(Numeral::Unsigned(1))),
        (text("out"), Node::Number(Numeral::Unsigned(1))),
        (text("in"), Node::Number(Numeral::Unsigned(1))),
    ]);
    assert_eq!(MixerChannels::from_node(&channels).unwrap_err().kind, ErrorKind::TypeMismatch);
}

#[test]
fn a_mapping_with_a_key_that_is_no_text_is_no_record() {
    let channels = Node::Mapping(vec![
        (text("in"), Node::Number(Numeral::Unsigned(1))),
        (Node::Number(Numeral::Unsigned(2)), Node::Number(Numeral::Unsigned(1))),
    ]);
    let e = MixerChannels::from_node(&channels).unwrap_err();
    assert_eq!(e.kind, ErrorKind::TypeMismatch);
    assert!(e.path.is_empty());
}

#[test]
fn the_channels_of_a_mixer_are_written_under_in_and_out() {
    let c = MixerChannels { input: 2, out: 1 };
    let n = c.to_node();
    assert_eq!(
        n,
        Node::Mapping(vec![
            (text("in"), Node::Number(Numeral::Unsigned(2))),
            (text("out"), Node::Number(Numeral::Unsigned(1))),
        ])
    );
    assert_eq!(MixerChannels::from_node(&n).unwrap(), c);
    let swapped = Node::Mapping(vec![
        (text("out"), Node::Number(Numeral::Unsigned(1))),
        (text("in"), Node::Number(Numeral::Unsigned(2))),
    ]);
    assert_eq!(MixerChannels::from_node(&swapped).unwrap(), c);
}

#[test]
fn mixers_of_a_document_keep_their_order() {
    let text = "devices:\n  samplerate: 1\n  chunksize: 1\n  capture: {type: Stdin, channels: 1, format: S16LE}\n  playback: {type: Stdout, channels: 1, format: S16LE}\nmixers:\n  second: {channels: {in: 1, out: 1}, mapping: []}\n  first: {channels: {in: 2, out: 2}, mapping: []}\n";
    let c = Configuration::from_yaml_string(text).unwrap();
    let mixers = c.mixers.as_ref().unwrap();
    assert_eq!(mixers.name(0), "second");
    assert_eq!(mixers.name(1), "first");
    assert_eq!(
        mixers.get("first"),
        Some(&Mixer { description: None, channels: MixerChannels { input: 2, out: 2 }, mapping: vec![], labels: None })
    );
    let written = c.to_yaml_string().unwrap();
    assert!(written.find("second").unwrap() < written.find("first").unwrap());
}
