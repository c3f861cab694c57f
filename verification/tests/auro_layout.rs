use harletty::auro::layout::{ChannelConfig, Layout};

#[test]
fn every_configuration_names_both_of_its_layouts() {
    for id in 0..=255u8 {
        let cfg = ChannelConfig(id);
        match (cfg.original(), cfg.carrier()) {
            (None, None) => {}
            (Some(original), Some(carrier)) => {
                assert!(
                    original.name().is_some(),
                    "config {id}: original {original:?}"
                );
                assert!(carrier.name().is_some(), "config {id}: carrier {carrier:?}");
            }
            other => panic!("config {id} is half-defined: {other:?}"),
        }
    }
}

#[test]
fn layout_names_expand_to_stream_ids() {
    assert_eq!(
        Layout(32703).streams().unwrap().as_slice(),
        &[0, 1, 2, 4, 5, 7, 8, 3, 9, 10, 11, 13, 14, 12]
    );
    assert_eq!(
        Layout(26175).streams().unwrap().as_slice(),
        &[0, 1, 2, 4, 5, 3, 9, 10, 13, 14]
    );
    assert_eq!(
        Layout(63).streams().unwrap().as_slice(),
        &[0, 1, 2, 4, 5, 3]
    );
    assert_eq!(Layout(11).streams().unwrap().as_slice(), &[0, 1, 3]);
    assert_eq!(
        Layout(26163).streams().unwrap().as_slice(),
        &[0, 1, 4, 5, 9, 10, 13, 14]
    );
    assert_eq!(
        Layout(26555).streams().unwrap().as_slice(),
        &[0, 1, 4, 5, 7, 8, 3, 9, 10, 13, 14]
    );
    assert!(Layout(0xFFFFFF).streams().is_none());
}

#[test]
fn catalogue_labels_count_the_channels() {
    assert_eq!(Layout(32703).source_codec_label(), "Auro-3D-13.1");
    assert_eq!(Layout(26175).source_codec_label(), "Auro-3D-9.1");
    assert_eq!(Layout(32319).source_codec_label(), "Auro-3D-11.1");
    assert_eq!(Layout(26559).source_codec_label(), "Auro-3D-11.1");
    assert_eq!(Layout(30271).source_codec_label(), "Auro-3D-10.1");
    assert_eq!(Layout(26163).source_codec_label(), "Auro-3D");
}

#[test]
fn presentation_names_count_the_speakers_a_room_needs() {
    // The six a certified decoder has been read against.
    assert_eq!(Layout(26163).presentation_name().as_deref(), Some("Auro 8.0"));
    assert_eq!(Layout(26175).presentation_name().as_deref(), Some("Auro 9.1"));
    assert_eq!(Layout(30271).presentation_name().as_deref(), Some("Auro 10.1"));
    assert_eq!(Layout(32319).presentation_name().as_deref(), Some("Auro 11.1"));
    assert_eq!(Layout(26559).presentation_name().as_deref(), Some("Auro 11.1"));
    assert_eq!(Layout(32703).presentation_name().as_deref(), Some("Auro 13.1"));

    // A layout with nothing overhead is a speaker layout, not an Auro
    // presentation, and an unknown id has nothing truthful to say.
    assert_eq!(Layout(63).presentation_name(), None);
    assert_eq!(Layout(447).presentation_name(), None);
    assert_eq!(Layout(0xFFFFFF).presentation_name(), None);
}

#[test]
fn the_thirteen_one_demo_configuration() {
    let cfg = ChannelConfig(62);
    assert_eq!(cfg.original().and_then(Layout::name), Some("7.1_5H_1T"));
    assert_eq!(cfg.carrier().and_then(Layout::name), Some("7.1"));
}

#[test]
fn names_without_the_grammar_have_no_streams() {
    assert_eq!(Layout(71).name(), Some("LCRS"));
    assert!(Layout(71).streams().is_none());
    assert_eq!(Layout(2052).name(), Some("TestMix2.0"));
    assert!(Layout(2052).streams().is_none());
    assert_eq!(Layout(1006659519).name(), Some("9.1_4H_2T"));
    assert!(Layout(1006659519).streams().is_none());
    assert_eq!(Layout(8).name(), Some("0.1"));
    assert!(Layout(8).streams().is_none());
}

#[test]
fn the_second_top_follows_the_first() {
    assert_eq!(
        Layout(805334975).streams().unwrap().as_slice(),
        &[0, 1, 2, 4, 5, 7, 8, 3, 9, 10, 11, 13, 14, 12, 15]
    );
    assert_eq!(Layout(805334975).presentation_name().as_deref(), Some("Auro 14.1"));
    assert_eq!(Layout(4).streams().unwrap().as_slice(), &[2]);
    assert_eq!(Layout(127).streams().unwrap().as_slice(), &[0, 1, 2, 4, 5, 6, 3]);
}

#[test]
fn streams_are_the_floor_then_the_heights_then_the_top() {
    let layer = |id: u8| match id {
        0..=8 => 0,
        12 | 15 => 2,
        _ => 1,
    };
    let large = [805_332_543u32, 805_332_927, 805_334_591, 805_334_975];
    let mut known = 0;
    for id in (0..0x8000u32).chain(large) {
        if let Some(streams) = Layout(id).streams() {
            known += 1;
            let list = streams.as_slice();
            for (place, &left) in list.iter().enumerate() {
                for &right in &list[place + 1..] {
                    assert!(layer(left) <= layer(right), "{id}: {list:?}");
                    assert_ne!(left, right, "{id}");
                }
            }
        }
    }
    assert_eq!(known, 66);
}

#[test]
fn a_named_layout_with_something_overhead_is_a_presentation() {
    assert_eq!(
        Layout(1006659519).presentation_name().as_deref(),
        Some("Auro 15.1")
    );
    assert_eq!(
        Layout(1006661567).presentation_name().as_deref(),
        Some("Auro 16.1")
    );
    assert_eq!(
        Layout(26555).presentation_name().as_deref(),
        Some("Auro 10.1"),
        "no centre"
    );
    assert_eq!(
        Layout(805332543).presentation_name().as_deref(),
        Some("Auro 11.1")
    );
    assert_eq!(Layout(443).presentation_name(), None);
    assert_eq!(Layout(71).presentation_name(), None);
    assert_eq!(Layout(2052).presentation_name(), None);
}

#[test]
fn streams_are_padded_with_zeros() {
    let streams = Layout(63).streams().unwrap();
    assert_eq!(streams.len, 6);
    assert_eq!(streams.ids, [0, 1, 2, 4, 5, 3, 0, 0, 0, 0, 0, 0, 0, 0, 0, 0]);
}

#[test]
fn labels_agree_with_what_a_listener_says() {
    let mut names = Vec::new();
    for id in 0..0x8000u32 {
        let layout = Layout(id);
        if let Some(name) = layout.name() {
            assert!(!names.contains(&name), "{name}");
            names.push(name);
        }
        if let Some(called) = layout.presentation_name() {
            let number = called.strip_prefix("Auro ").unwrap();
            if ["9.1", "10.1", "11.1", "13.1"].contains(&number) {
                assert_eq!(layout.source_codec_label(), format!("Auro-3D-{number}"));
            }
        }
    }
}

#[test]
fn carriers_lie_in_what_they_carry() {
    for id in 0..=255u8 {
        let config = ChannelConfig(id);
        if let (Some(original), Some(carrier)) = (config.original(), config.carrier()) {
            let inner = carrier.streams().expect("a carrier's streams are known");
            assert!(inner.as_slice().iter().all(|&stream| stream <= 8));
            assert_eq!(carrier.presentation_name(), None);
            assert_eq!(id != 64, carrier.0 & original.0 == carrier.0);
            if let Some(outer) = original.streams() {
                assert!(inner.len <= outer.len);
                let within = |stream| outer.as_slice().contains(stream);
                assert_eq!(id != 64, inner.as_slice().iter().all(within));
            }
        }
    }
}
