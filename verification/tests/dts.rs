use harletty::bridge::bridge::{AtmosBridge, PushResult};
use harletty::bridge::codec::DtsProfile;
use harletty::bridge::dts_demux::{
    find, DtsDemux, DtsReply, DtsRequest, ExssKind, HeaderReply,
};
use harletty::bridge::dts_frame::{
    active_list, build_core_frame, build_hd_frame_with_extensions, BuiltFrame, CoreFrame,
    DtsXState, Finding, HdFrame, PlanSource,
};
use harletty::bridge::dts_objects::XPresentation;
use harletty::bridge::frame::{ObjectChannel, SphericalPosition};
use harletty::bridge::labels::{DcaBedChannel, RChannelLabel};

const SAMPLE_COUNT: usize = 2;
const Q55: f32 = 23170.0 / 32768.0;

type State = DtsXState<&'static str>;
type Fold = (usize, usize, f32);

fn float_to_pcm_i32(sample: f32) -> i32 {
    (sample * 8_388_608.0).round().clamp(-8_388_608.0, 8_388_607.0) as i32
}

fn assert_pcm_close(actual: i32, expected: f32) {
    let expected = float_to_pcm_i32(expected);
    assert!(
        // Allow the bounded float32/PCM quantisation difference.
        actual.abs_diff(expected) <= 64,
        "actual={actual}, expected={expected}"
    );
}

fn folded(dry: &[f32], sources: &[(&[f32], f32)]) -> Vec<f32> {
    dry.iter()
        .enumerate()
        .map(|(s, &value)| {
            value
                + sources
                    .iter()
                    .map(|(source, gain)| source[s] * gain)
                    .sum::<f32>()
        })
        .collect()
}

fn full_bed() -> Vec<Option<Vec<f32>>> {
    let mut samples: Vec<Option<Vec<f32>>> = (0..9).map(|_| None).collect();
    for idx in [0usize, 1, 2, 3, 4, 5, 7, 8] {
        samples[idx] = Some(vec![0.01 * idx as f32, -0.01 * idx as f32]);
    }
    samples
}

fn to_pcm(samples: &[f32]) -> Vec<i32> {
    samples.iter().map(|&s| float_to_pcm_i32(s)).collect()
}

/// A frame whose bed has had each fold removed: speaker, waveform and gain.
fn hd_frame(
    samples: &[Option<Vec<f32>>],
    feeds: &[Vec<f32>],
    detected: Option<XPresentation>,
    folds: &[Fold],
    unknown: &[usize],
    positions: &[Option<SphericalPosition>],
) -> HdFrame {
    let bed = samples
        .iter()
        .enumerate()
        .map(|(speaker, channel)| {
            channel.as_ref().map(|channel| {
                let clean: Vec<f32> = channel
                    .iter()
                    .enumerate()
                    .map(|(s, &value)| {
                        folds
                            .iter()
                            .filter(|fold| fold.0 == speaker)
                            .fold(value, |left, fold| left - feeds[fold.1][s] * fold.2)
                    })
                    .collect();
                to_pcm(&clean)
            })
        })
        .collect();
    HdFrame {
        sample_rate: 48_000,
        sample_count: SAMPLE_COUNT,
        samples: bed,
        detected,
        feeds: feeds.iter().map(|feed| to_pcm(feed)).collect(),
        feed_known: (0..feeds.len()).map(|feed| !unknown.contains(&feed)).collect(),
        positions: positions.to_vec(),
        has_extension: !feeds.is_empty(),
    }
}

fn at(azimuth: i16, elevation: i16) -> Option<SphericalPosition> {
    Some(SphericalPosition {
        azimuth_half_degrees: azimuth,
        elevation_half_degrees: elevation,
        distance_64ths: 64,
    })
}

fn build(hd: &HdFrame, state: &mut State) -> BuiltFrame {
    let mut declared = None;
    build_hd_frame_with_extensions(hd, state, 0, &mut declared).expect("valid frame")
}

/// The four fixed heights folded into L, R, Lb, Rb from waveform `first` on.
fn heights(first: usize, gain: f32) -> Vec<Fold> {
    vec![
        (1, first, gain),
        (2, first + 1, gain),
        (7, first + 2, gain),
        (8, first + 3, gain),
    ]
}

#[test]
fn standard_heights_are_removed_from_the_bed_with_the_stated_gain() {
    let heights_pcm = [
        vec![0.40, -0.20],
        vec![-0.30, 0.10],
        vec![0.20, -0.40],
        vec![-0.10, 0.30],
    ];
    let dry = [
        vec![0.05, -0.06],
        vec![-0.07, 0.08],
        vec![0.09, -0.10],
        vec![-0.11, 0.12],
    ];
    let mut samples = full_bed();
    samples[1] = Some(folded(&dry[0], &[(&heights_pcm[0], 1.0)]));
    samples[2] = Some(folded(&dry[1], &[(&heights_pcm[1], 1.0)]));
    samples[7] = Some(folded(&dry[2], &[(&heights_pcm[2], 1.0)]));
    samples[8] = Some(folded(&dry[3], &[(&heights_pcm[3], 1.0)]));
    let mut state = State::new();
    assert_eq!(
        state.resolve_plan(Some("heights"), XPresentation::Height).source,
        PlanSource::Metadata
    );
    let hd = hd_frame(
        &samples,
        &heights_pcm,
        Some(XPresentation::Height),
        &heights(0, 1.0),
        &[],
        &[],
    );

    let BuiltFrame { frame, has_objects, .. } = build(&hd, &mut state);
    assert!(!has_objects, "a fixed presentation carries no objects");
    assert_eq!(state.locked, Some(XPresentation::Height));
    assert_eq!(frame.channel_count, 12);
    assert_eq!(
        frame.channel_labels.as_slice(),
        &[
            RChannelLabel::C,
            RChannelLabel::L,
            RChannelLabel::R,
            RChannelLabel::Ls,
            RChannelLabel::Rs,
            RChannelLabel::LFE,
            RChannelLabel::Lb,
            RChannelLabel::Rb,
            RChannelLabel::Tfl,
            RChannelLabel::Tfr,
            RChannelLabel::Tbl,
            RChannelLabel::Tbr,
        ]
    );
    assert!(
        frame.metadata.is_empty(),
        "a fixed presentation must not fabricate metadata"
    );
    for sample in 0..SAMPLE_COUNT {
        let row = &frame.pcm[sample * 12..(sample + 1) * 12];
        assert_pcm_close(row[1], dry[0][sample]);
        assert_pcm_close(row[2], dry[1][sample]);
        assert_pcm_close(row[6], dry[2][sample]);
        assert_pcm_close(row[7], dry[3][sample]);
        for height in 0..4 {
            assert_pcm_close(row[8 + height], heights_pcm[height][sample]);
        }
    }
}

#[test]
fn unreadable_standard_metadata_falls_back_to_the_configured_gain() {
    let left_height = vec![0.40, -0.20];
    let dry = vec![0.05, -0.06];
    let mut samples = full_bed();
    samples[1] = Some(folded(&dry, &[(&left_height, Q55)]));
    let mut state = State::new();
    assert_eq!(
        state.resolve_plan(None, XPresentation::Height).source,
        PlanSource::StandardHeights
    );
    let hd = hd_frame(
        &samples,
        &vec![left_height; 4],
        Some(XPresentation::Height),
        &heights(0, Q55),
        &[],
        &[],
    );
    let BuiltFrame { frame, .. } = build(&hd, &mut state);
    assert_eq!(frame.channel_count, 12);
    assert_eq!(state.parse_failures, 1);
    for sample in 0..SAMPLE_COUNT {
        assert_pcm_close(frame.pcm[sample * 12 + 1], dry[sample]);
    }
}

#[test]
fn invalid_quartet_keeps_the_compatible_bed_unchanged() {
    let composite_left = vec![0.25, -0.25];
    let mut samples = full_bed();
    samples[1] = Some(composite_left.clone());
    let hd = hd_frame(&samples, &vec![vec![0.5; SAMPLE_COUNT]; 3], None, &[], &[], &[]);

    // Not locked yet: an invalid quartet keeps the plain 8-channel bed.
    let mut state = State::new();
    let BuiltFrame { frame, .. } = build(&hd, &mut state);
    assert_eq!(state.locked, None, "an invalid quartet must not latch");
    assert_eq!(frame.channel_count, 8);
    assert!(frame.metadata.is_empty());
    for sample in 0..SAMPLE_COUNT {
        assert_eq!(
            frame.pcm[sample * 8 + 1],
            float_to_pcm_i32(composite_left[sample])
        );
    }
}

#[test]
fn locked_stream_keeps_shape_with_silent_feeds_on_dropout() {
    let composite_left = vec![0.25, -0.25];
    let mut samples = full_bed();
    samples[1] = Some(composite_left.clone());
    // Invalid quartet (3 channels) after a previous frame locked heights.
    let hd = hd_frame(&samples, &vec![vec![0.5; SAMPLE_COUNT]; 3], None, &[], &[], &[]);

    let mut state = State::new();
    state.last_metadata = Some("heights");
    state.locked = Some(XPresentation::Height);
    let BuiltFrame { frame, .. } = build(&hd, &mut state);

    assert_eq!(frame.channel_count, 12);
    assert!(frame.metadata.is_empty());
    assert_eq!(state.feed_dropouts, 1);
    for sample in 0..SAMPLE_COUNT {
        let row = &frame.pcm[sample * 12..(sample + 1) * 12];
        assert_eq!(row[1], float_to_pcm_i32(composite_left[sample]));
        assert!(row[8..12].iter().all(|&s| s == 0));
    }
}

#[test]
fn an_extension_that_never_decodes_is_reported_and_the_bed_plays() {
    let mut hd = hd_frame(&full_bed(), &[], None, &[], &[], &[]);
    hd.has_extension = true;
    let mut state = State::new();
    let BuiltFrame { frame, has_objects, .. } = build(&hd, &mut state);
    assert!(!has_objects);
    assert_eq!(frame.channel_count, 8);
    assert_eq!(state.undecodable_extensions, 1);
    assert_eq!(build(&hd, &mut state).reported, Some(Finding::UndecodableExtension));
    assert_eq!(build(&hd, &mut state).reported, None, "the third is not reported");
    state.undecodable_extensions = 1;

    // A frame with no extension at all has nothing to report.
    let plain = hd_frame(&full_bed(), &[], None, &[], &[], &[]);
    let BuiltFrame { frame, .. } = build(&plain, &mut state);
    assert_eq!(frame.channel_count, 8);
    assert_eq!(state.undecodable_extensions, 1);
}

#[test]
fn d3_unfolds_objects_and_heights_and_positions_the_objects() {
    let extension: Vec<Vec<f32>> = (0..8)
        .map(|index| vec![0.01 * (index + 1) as f32, -0.02 * (index + 1) as f32])
        .collect();
    let code21 = 0.25;
    let dry_lb = vec![0.10, -0.10];
    let dry_l = vec![0.20, -0.20];
    let mut samples: Vec<Option<Vec<f32>>> = (0..9).map(|_| None).collect();
    samples[0] = Some(vec![0.30, -0.30]);
    samples[1] = Some(folded(&dry_l, &[(&extension[4], Q55)]));
    samples[7] = Some(folded(
        &dry_lb,
        &[
            (&extension[0], 1.0),
            (&extension[1], code21),
            (&extension[6], Q55),
        ],
    ));
    let mut folds = heights(4, Q55);
    folds.push((7, 0, 1.0));
    folds.push((7, 1, code21));
    let sources = [at(-291, 57), at(291, 54), at(-300, 0), at(300, 0)];
    let detected = Some(XPresentation::ObjectsD3);
    let hd = hd_frame(&samples, &extension, detected, &folds, &[], &sources);

    let mut state = State::new();
    let mut declared = None;
    let BuiltFrame { frame, has_objects, .. } =
        build_hd_frame_with_extensions(&hd, &mut state, 48_000, &mut declared)
            .expect("valid D3 frame");

    assert!(has_objects);
    assert_eq!(state.locked, Some(XPresentation::ObjectsD3));
    assert_eq!(frame.channel_count, 3 + 8);
    assert_eq!(
        frame.channel_labels.as_slice(),
        &[
            RChannelLabel::C,
            RChannelLabel::L,
            RChannelLabel::Lb,
            RChannelLabel::Tfl,
            RChannelLabel::Tfr,
            RChannelLabel::Tbl,
            RChannelLabel::Tbr,
            RChannelLabel::Object,
            RChannelLabel::Object,
            RChannelLabel::Object,
            RChannelLabel::Object,
        ]
    );
    for sample in 0..SAMPLE_COUNT {
        let row = &frame.pcm[sample * 11..(sample + 1) * 11];
        assert_pcm_close(row[0], 0.30 * if sample == 0 { 1.0 } else { -1.0 });
        assert_pcm_close(row[1], dry_l[sample]);
        assert_pcm_close(row[2], dry_lb[sample]);
        for (slot, feed) in (4..8).chain(0..4).enumerate() {
            assert_pcm_close(row[3 + slot], extension[feed][sample]);
        }
    }

    assert_eq!(frame.metadata.len(), 1);
    let metadata = &frame.metadata[0];
    assert_eq!(metadata.sample_pos, 48_000);
    assert_eq!(metadata.events.len(), 4);
    assert_eq!(metadata.object_channels.len(), 4);
    assert_eq!(metadata.name_updates.len(), 4);
    for feed in 0..4 {
        assert_eq!(metadata.object_channels[feed].id, 10 + feed as u32);
        assert_eq!(metadata.object_channels[feed].channel, (7 + feed) as u32);
        assert_eq!(metadata.name_updates[feed].name.as_str(), format!("X{feed}"));
        assert_eq!(metadata.name_updates[feed].id, 10 + feed as u32);
        let event = &metadata.events[feed];
        assert_eq!(event.id, 10 + feed as u32);
        assert_eq!(Some(event.position), sources[feed]);
    }

    // One object moves: every object is announced again.
    let mut moved = sources;
    moved[2] = at(-280, 20);
    let moved_hd = hd_frame(&samples, &extension, detected, &folds, &[], &moved);
    let frame_moved =
        build_hd_frame_with_extensions(&moved_hd, &mut state, 48_000 + 1024, &mut declared)
            .expect("valid D3 frame")
            .frame;
    assert_eq!(frame_moved.metadata.len(), 1);
    assert_eq!(
        frame_moved.metadata[0].events.len(),
        4,
        "all objects, not only the mover"
    );
    assert!(
        frame_moved.metadata[0].object_channels.is_empty(),
        "declaration unchanged"
    );

    // Same positions again: the declaration is cached and no event is due
    // between heartbeats.
    let again = build_hd_frame_with_extensions(&moved_hd, &mut state, 48_000 + 512, &mut declared)
        .expect("valid D3 frame")
        .frame;
    assert!(again.metadata.is_empty());
    // The heartbeat falls on every half second.
    let beat = build_hd_frame_with_extensions(&moved_hd, &mut state, 72_001, &mut declared)
        .expect("valid D3 frame")
        .frame;
    assert_eq!(beat.metadata[0].events.len(), 4);
    assert!(beat.metadata[0].name_updates.is_empty());
}

#[test]
fn d0_plays_its_object_at_the_declared_position_and_unfolds_it() {
    let extension: Vec<Vec<f32>> = (0..5)
        .map(|index| vec![0.01 * (index + 1) as f32, -0.01 * (index + 1) as f32])
        .collect();
    let code58 = 0.75;
    let code46 = 0.5;
    let dry = [
        vec![0.10, -0.10],
        vec![0.20, -0.20],
        vec![0.30, -0.30],
        vec![0.40, -0.40],
        vec![0.50, -0.50],
    ];
    let mut samples = full_bed();
    samples[0] = Some(folded(&dry[0], &[(&extension[0], code58)]));
    samples[1] = Some(folded(
        &dry[1],
        &[(&extension[0], code46), (&extension[1], 1.0)],
    ));
    samples[2] = Some(folded(
        &dry[2],
        &[(&extension[0], code46), (&extension[2], 1.0)],
    ));
    samples[7] = Some(folded(&dry[3], &[(&extension[3], 1.0)]));
    samples[8] = Some(folded(&dry[4], &[(&extension[4], 1.0)]));
    let mut folds = heights(1, 1.0);
    folds.extend([(0, 0, code58), (1, 0, code46), (2, 0, code46)]);
    let position = at(0, 51);
    let hd = hd_frame(
        &samples,
        &extension,
        Some(XPresentation::ObjectD0),
        &folds,
        &[],
        &[position],
    );
    let mut state = State::new();
    let BuiltFrame { frame, has_objects, .. } = build(&hd, &mut state);

    assert!(has_objects, "the D0 object is announced to the engine");
    assert_eq!(state.locked, Some(XPresentation::ObjectD0));
    assert_eq!(frame.channel_count, 13);
    assert_eq!(
        frame.channel_labels.as_slice(),
        &[
            RChannelLabel::C,
            RChannelLabel::L,
            RChannelLabel::R,
            RChannelLabel::Ls,
            RChannelLabel::Rs,
            RChannelLabel::LFE,
            RChannelLabel::Lb,
            RChannelLabel::Rb,
            RChannelLabel::Tfl,
            RChannelLabel::Tfr,
            RChannelLabel::Tbl,
            RChannelLabel::Tbr,
            RChannelLabel::Object,
        ]
    );
    for sample in 0..SAMPLE_COUNT {
        let row = &frame.pcm[sample * 13..(sample + 1) * 13];
        for channel in 0..3 {
            assert_pcm_close(row[channel], dry[channel][sample]);
        }
        assert_pcm_close(row[3], samples[3].as_ref().unwrap()[sample]);
        assert_pcm_close(row[6], dry[3][sample]);
        assert_pcm_close(row[7], dry[4][sample]);
        // The four heights, then the object last.
        for (slot, feed) in (1..5).chain(0..1).enumerate() {
            assert_pcm_close(row[8 + slot], extension[feed][sample]);
        }
    }

    assert_eq!(frame.metadata.len(), 1);
    let metadata = &frame.metadata[0];
    assert_eq!(metadata.object_channels.len(), 1);
    assert_eq!(
        metadata.object_channels[0].channel, 12,
        "the object is the last channel"
    );
    assert_eq!(metadata.events.len(), 1);
    assert_eq!(Some(metadata.events[0].position), position);
}

#[test]
fn d1_objects_without_a_stated_fold_stay_in_the_bed_and_are_muted_without_estimation() {
    let extension: Vec<Vec<f32>> = (0..6)
        .map(|index| vec![0.01 * (index + 1) as f32, -0.01 * (index + 1) as f32])
        .collect();
    let dry_l = vec![0.20, -0.20];
    let mut samples = full_bed();
    samples[1] = Some(folded(
        &dry_l,
        &[(&extension[0], 0.9152), (&extension[2], Q55)],
    ));
    let mut state = State::new();
    assert!(!state.note_estimation(false, true));
    assert!(!state.estimation_noted);
    let hd = hd_frame(
        &samples,
        &extension,
        Some(XPresentation::ObjectsD1),
        &heights(2, Q55),
        &[0, 1],
        &[at(-69, 24), at(69, 24)],
    );
    let BuiltFrame { frame, has_objects, .. } = build(&hd, &mut state);

    assert!(has_objects, "D1 declares object channels");
    assert_eq!(state.locked, Some(XPresentation::ObjectsD1));
    assert_eq!(frame.channel_count, 8 + 6);
    assert_eq!(
        &frame.channel_labels[8..],
        &[
            RChannelLabel::Tfl,
            RChannelLabel::Tfr,
            RChannelLabel::Tbl,
            RChannelLabel::Tbr,
            RChannelLabel::Object,
            RChannelLabel::Object,
        ]
    );
    for sample in 0..SAMPLE_COUNT {
        let row = &frame.pcm[sample * 14..(sample + 1) * 14];
        // Only the height leaves L; the object's share stays.
        assert_pcm_close(row[1], dry_l[sample] + extension[0][sample] * 0.9152);
        for (slot, feed) in (2..6).enumerate() {
            assert_pcm_close(row[8 + slot], extension[feed][sample]);
        }
        assert_eq!(row[12], 0, "an unfoldable object must not play twice");
        assert_eq!(row[13], 0);
    }
    assert_eq!(frame.metadata.len(), 1);
    assert_eq!(
        frame.metadata[0].events.len(),
        2,
        "positions are still announced"
    );
    assert_eq!(frame.metadata[0].object_channels.len(), 2);
}

#[test]
fn three_component_d0_form_presents_the_bed_plus_three_objects_and_heights() {
    let component = vec![0.20, -0.10];
    let copy: Vec<f32> = component.iter().map(|s| s * 0.365).collect();
    let heights_pcm: Vec<Vec<f32>> = (0..4)
        .map(|k| vec![0.03 * k as f32, -0.07 * k as f32])
        .collect();
    let dry_c = vec![0.05, -0.05];
    let dry_l = vec![0.07, -0.02];
    let dry_r = vec![-0.03, 0.06];
    let mut samples = full_bed();
    samples[0] = Some(folded(&dry_c, &[(&component, 1.0)]));
    samples[1] = Some(folded(&dry_l, &[(&copy, 1.0), (&heights_pcm[0], Q55)]));
    samples[2] = Some(folded(&dry_r, &[(&copy, 1.0), (&heights_pcm[1], Q55)]));
    let mut extension = vec![component.clone(), copy.clone(), copy.clone()];
    extension.extend(heights_pcm.iter().cloned());
    let mut folds = heights(3, Q55);
    folds.extend([(0, 0, 1.0), (1, 1, 1.0), (2, 2, 1.0)]);
    let hd = hd_frame(
        &samples,
        &extension,
        Some(XPresentation::ObjectsD0),
        &folds,
        &[],
        &[at(0, 0), at(-60, 0), at(60, 0)],
    );
    let mut state = State::new();
    let BuiltFrame { frame, has_objects, .. } = build(&hd, &mut state);

    assert!(has_objects, "the components are object channels");
    assert_eq!(state.locked, Some(XPresentation::ObjectsD0));
    assert_eq!(frame.channel_count, 8 + 4 + 3);
    assert_eq!(
        &frame.channel_labels.as_slice()[8..],
        &[
            RChannelLabel::Tfl,
            RChannelLabel::Tfr,
            RChannelLabel::Tbl,
            RChannelLabel::Tbr,
            RChannelLabel::Object,
            RChannelLabel::Object,
            RChannelLabel::Object,
        ]
    );
    for sample in 0..SAMPLE_COUNT {
        let row = &frame.pcm[sample * 15..(sample + 1) * 15];
        assert_pcm_close(row[0], dry_c[sample]);
        assert_pcm_close(row[1], dry_l[sample]);
        assert_pcm_close(row[2], dry_r[sample]);
        for (slot, feed) in (3..7).chain(0..3).enumerate() {
            assert_pcm_close(row[8 + slot], extension[feed][sample]);
        }
    }
    assert_eq!(frame.metadata.len(), 1);
    let metadata = &frame.metadata[0];
    assert_eq!(metadata.object_channels.len(), 3);
    assert_eq!(metadata.events.len(), 3);
    assert_eq!(
        metadata.events[0].position.elevation_half_degrees, 0,
        "ear level"
    );
    assert!(
        metadata.events[1].position.azimuth_half_degrees < 0
            && metadata.events[2].position.azimuth_half_degrees > 0,
        "the left and right components sit on their sides"
    );
}

#[test]
fn object_only_variant_presents_a_5_1_bed_plus_one_object() {
    let object_pcm = vec![0.20, -0.10];
    let dry_c = vec![0.05, -0.05];
    let dry_l = vec![0.07, -0.02];
    let code58 = 0.75;
    let code46 = 0.5;
    let mut samples: Vec<Option<Vec<f32>>> = (0..9).map(|_| None).collect();
    samples[0] = Some(folded(&dry_c, &[(&object_pcm, code58)]));
    samples[1] = Some(folded(&dry_l, &[(&object_pcm, code46)]));
    samples[2] = Some(vec![0.03, -0.03]);
    samples[3] = Some(vec![0.04, -0.04]);
    samples[4] = Some(vec![0.06, -0.06]);
    samples[5] = Some(vec![0.08, -0.08]);
    let hd = hd_frame(
        &samples,
        &[object_pcm.clone()],
        Some(XPresentation::ObjectOnly),
        &[(0, 0, code58), (1, 0, code46), (2, 0, code46)],
        &[],
        &[at(0, 51)],
    );
    let mut state = State::new();
    let BuiltFrame { frame, has_objects, .. } = build(&hd, &mut state);

    assert!(has_objects, "the object is an object channel");
    assert_eq!(state.locked, Some(XPresentation::ObjectOnly));
    assert_eq!(frame.channel_count, 7);
    assert_eq!(
        frame.channel_labels.as_slice(),
        &[
            RChannelLabel::C,
            RChannelLabel::L,
            RChannelLabel::R,
            RChannelLabel::Ls,
            RChannelLabel::Rs,
            RChannelLabel::LFE,
            RChannelLabel::Object,
        ]
    );
    for sample in 0..SAMPLE_COUNT {
        let row = &frame.pcm[sample * 7..(sample + 1) * 7];
        assert_pcm_close(row[0], dry_c[sample]);
        assert_pcm_close(row[1], dry_l[sample]);
        assert_pcm_close(row[3], samples[3].as_ref().unwrap()[sample]);
        assert_pcm_close(row[6], object_pcm[sample]);
    }
    assert_eq!(frame.metadata.len(), 1);
    let metadata = &frame.metadata[0];
    assert_eq!(metadata.object_channels.len(), 1);
    assert_eq!(metadata.object_channels[0].channel, 6);
    assert_eq!(metadata.events.len(), 1);
    assert!(
        metadata.events[0].position.elevation_half_degrees > 0,
        "the object is raised"
    );
}

#[test]
fn alternate_frame_without_any_readable_metadata_mutes_its_feeds() {
    let extension: Vec<Vec<f32>> = (0..8).map(|_| vec![0.1; SAMPLE_COUNT]).collect();
    let composite_left = vec![0.25, -0.25];
    let mut samples = full_bed();
    samples[1] = Some(composite_left.clone());
    let mut state = State::new();
    assert_eq!(
        state.resolve_plan(None, XPresentation::ObjectsD3).source,
        PlanSource::AllUnknown
    );
    let unknown: Vec<usize> = (0..8).collect();
    let detected = Some(XPresentation::ObjectsD3);
    let hd = hd_frame(&samples, &extension, detected, &[], &unknown, &[]);

    let BuiltFrame { frame, has_objects, .. } = build(&hd, &mut state);
    assert!(has_objects);
    assert_eq!(frame.channel_count, 16);
    assert_eq!(state.parse_failures, 1);
    for sample in 0..SAMPLE_COUNT {
        let row = &frame.pcm[sample * 16..(sample + 1) * 16];
        assert_eq!(row[1], float_to_pcm_i32(composite_left[sample]));
        assert!(row[8..16].iter().all(|&s| s == 0));
    }
    assert_eq!(frame.metadata.len(), 1, "channels are still declared");
    assert!(
        frame.metadata[0].events.is_empty(),
        "no positions to announce"
    );
}

#[test]
fn mismatched_bed_channel_length_drops_the_frame() {
    let mut samples: Vec<Option<Vec<f32>>> = (0..9).map(|_| None).collect();
    samples[0] = Some(vec![0.0; SAMPLE_COUNT]);
    samples[1] = Some(vec![0.0; SAMPLE_COUNT + 1]); // corrupt length
    let hd = hd_frame(&samples, &[], None, &[], &[], &[]);
    let mut state = State::new();
    let mut declared = None;
    assert!(build_hd_frame_with_extensions(&hd, &mut state, 0, &mut declared).is_none());
}

#[test]
fn a_changed_presentation_is_told_from_the_latched_one() {
    let mut state = State::new();
    assert!(!state.presentation_changes(Some(XPresentation::Height)));
    state.locked = Some(XPresentation::Height);
    assert!(!state.presentation_changes(Some(XPresentation::Height)));
    assert!(state.presentation_changes(Some(XPresentation::ObjectD0)));
    assert!(!state.presentation_changes(None));
    assert_eq!(
        state.resolve_plan(Some("first"), XPresentation::Height).source,
        PlanSource::Metadata
    );
    assert_eq!(
        state.resolve_plan(None, XPresentation::Height).source,
        PlanSource::Metadata
    );
    assert_eq!(state.last_metadata, Some("first"));
    assert!(state.note_estimation(true, true));
    assert!(state.estimation_noted);
}

#[test]
fn findings_come_with_the_frame() {
    let mut state = State::new();
    let choice = state.resolve_plan(None, XPresentation::Height);
    assert!(choice.reported);
    assert!(!state.resolve_plan(Some("heights"), XPresentation::Height).reported);
    state.parse_failures = 2;
    assert!(!state.resolve_plan(None, XPresentation::Height).reported);
    state.locked = Some(XPresentation::Height);
    let mut hd = hd_frame(&full_bed(), &[], None, &[], &[], &[]);
    assert_eq!(build(&hd, &mut state).reported, None);
    hd.has_extension = true;
    assert_eq!(build(&hd, &mut state).reported, Some(Finding::FeedDropout));
}

#[test]
fn repeated_findings_are_reported_ever_more_rarely() {
    let mut state = State::new();
    let reported: Vec<u64> = (1..=20)
        .filter(|_| state.note_bed_extension_dropout())
        .collect();
    assert_eq!(reported, vec![1, 2, 4, 8, 16]);
    assert_eq!(state.bed_extension_dropouts, 20);
    assert!(state.note_feed_dropout());
    assert!(state.note_undecodable_extension());
    assert!(state.note_parse_failure());
}

#[test]
fn a_core_frame_is_labelled_in_its_own_order() {
    let core = CoreFrame {
        sample_rate: 48_000,
        sample_count: 2,
        fullband_channels: vec![vec![1, 2], vec![3, 4]],
        fullband_channel_order: vec![DcaBedChannel::Center, DcaBedChannel::FrontLeft],
        lfe_channel: Some(vec![5, 6]),
    };
    let frame = build_core_frame(&core);
    assert_eq!(frame.channel_count, 3);
    assert_eq!(frame.pcm.as_slice(), &[1, 3, 5, 2, 4, 6]);
    assert_eq!(
        frame.channel_labels,
        vec![RChannelLabel::C, RChannelLabel::L, RChannelLabel::LFE]
    );

    // What a channel has beyond the frame is left out.
    let longer = CoreFrame {
        lfe_channel: Some(vec![5, 6, 7]),
        ..core
    };
    assert_eq!(build_core_frame(&longer).pcm.as_slice(), &[1, 3, 5, 2, 4, 6]);
}

const CORE: [u8; 4] = [0x7F, 0xFE, 0x80, 0x01];
const EXSS: [u8; 4] = [0x64, 0x58, 0x20, 0x25];

type Bridge = AtmosBridge<(), (), &'static str>;

#[test]
fn sync_words_are_found_at_their_first_place() {
    assert_eq!(find(&[0, 0x7F, 0xFE, 0x80, 0x01, 0x7F], &CORE), Some(1));
    assert_eq!(find(&[0x7F, 0xFE, 0x80], &CORE), None);
    assert_eq!(find(&[], &CORE), None);
}

#[test]
fn a_plain_core_is_cut_out_and_dropped_from_the_buffer() {
    let mut bridge = Bridge::new(false, 4096);
    let mut packet = vec![9, 9];
    packet.extend(CORE);
    packet.extend([1, 2, 3, 4]);
    packet.extend(CORE);
    packet.push(5);
    bridge.buffer_dts(&packet);
    let mut demux = DtsDemux::new();
    let request = bridge.drain_dts(&mut demux, DtsReply::Next);
    assert_eq!(request, DtsRequest::ParseHeader { at: 2 });
    let request = bridge.drain_dts(&mut demux, DtsReply::Header(HeaderReply::Frame(8)));
    assert_eq!(
        request,
        DtsRequest::DecodeCore {
            from: 2,
            to: 10,
            profile: DtsProfile::Core
        }
    );
    let request = bridge.drain_dts(&mut demux, DtsReply::Next);
    assert_eq!(request, DtsRequest::ParseHeader { at: 10 });
    let reply = DtsReply::Header(HeaderReply::InsufficientData);
    assert_eq!(bridge.drain_dts(&mut demux, reply), DtsRequest::Done);
    assert_eq!(bridge.dts_buf, packet[10..].to_vec());
}

#[test]
fn a_substream_decides_how_its_core_is_decoded() {
    let mut packet = CORE.to_vec();
    packet.extend(EXSS);
    packet.extend([0, 0, 0]);
    for (kind, request, profile) in [
        (
            ExssKind::Lossless,
            DtsRequest::DecodeHd {
                from: 0,
                middle: 4,
                to: 10,
                profile: DtsProfile::Ma,
            },
            DtsProfile::Ma,
        ),
        (
            ExssKind::Lossy,
            DtsRequest::DecodeHd {
                from: 0,
                middle: 4,
                to: 10,
                profile: DtsProfile::Hd,
            },
            DtsProfile::Hd,
        ),
        (
            ExssKind::Core,
            DtsRequest::DecodeCore {
                from: 0,
                to: 4,
                profile: DtsProfile::Hd,
            },
            DtsProfile::Hd,
        ),
    ] {
        let mut bridge = Bridge::new(false, 4096);
        bridge.buffer_dts(&packet);
        let mut demux = DtsDemux::new();
        bridge.drain_dts(&mut demux, DtsReply::Next);
        assert_eq!(
            bridge.drain_dts(&mut demux, DtsReply::Header(HeaderReply::Frame(4))),
            DtsRequest::SizeSubstream { at: 4 }
        );
        assert_eq!(
            bridge.drain_dts(&mut demux, DtsReply::SubstreamSize(Some(6))),
            DtsRequest::Classify { from: 4, to: 10 }
        );
        assert_eq!(bridge.drain_dts(&mut demux, DtsReply::Kind(kind)), request);
        assert_eq!(bridge.dts_profile, profile);
        assert_eq!(bridge.drain_dts(&mut demux, DtsReply::Next), DtsRequest::Done);
        // One byte is left behind the frame: a possible start of a sync word.
        assert_eq!(bridge.dts_buf, vec![0]);
    }
}

#[test]
fn incomplete_frames_wait_for_more() {
    let drained = |replies: &[DtsReply]| {
        let mut bridge = Bridge::new(false, 4096);
        let mut packet = CORE.to_vec();
        packet.extend(EXSS);
        bridge.buffer_dts(&packet);
        let mut demux = DtsDemux::new();
        let mut request = bridge.drain_dts(&mut demux, DtsReply::Next);
        for reply in replies {
            request = bridge.drain_dts(&mut demux, *reply);
        }
        assert_eq!(request, DtsRequest::Done);
        bridge.dts_buf.len()
    };
    let frame = |size| DtsReply::Header(HeaderReply::Frame(size));
    assert_eq!(drained(&[frame(5)]), 8);
    assert_eq!(drained(&[frame(usize::MAX)]), 8);
    assert_eq!(drained(&[frame(4), DtsReply::SubstreamSize(None)]), 8);
    assert_eq!(drained(&[frame(4), DtsReply::SubstreamSize(Some(5))]), 8);
    // An invalid candidate is skipped; the last three bytes are kept.
    assert_eq!(drained(&[DtsReply::Header(HeaderReply::Invalid)]), 3);
}

#[test]
fn frames_of_a_packet_come_in_order_and_do_not_overlap() {
    let mut bridge = Bridge::new(false, 4096);
    let mut packet = vec![];
    for size in [6usize, 9, 7] {
        packet.extend([0, 1]);
        packet.extend(CORE);
        packet.extend(vec![2; size - 4]);
    }
    bridge.buffer_dts(&packet);
    let mut demux = DtsDemux::new();
    let mut request = bridge.drain_dts(&mut demux, DtsReply::Next);
    let mut sizes = [6usize, 9, 7].into_iter();
    let mut cuts = vec![];
    while request != DtsRequest::Done {
        let reply = match request {
            DtsRequest::ParseHeader { .. } => match sizes.next() {
                Some(size) => DtsReply::Header(HeaderReply::Frame(size)),
                None => DtsReply::Header(HeaderReply::Invalid),
            },
            DtsRequest::DecodeCore { from, to, .. } => {
                cuts.push((from, to));
                DtsReply::Next
            }
            other => panic!("{other:?}"),
        };
        request = bridge.drain_dts(&mut demux, reply);
    }
    // The last one waits for the bytes that show whether a substream follows.
    assert_eq!(cuts, vec![(2, 8), (10, 19)]);
    assert_eq!(bridge.dts_buf, packet[21..].to_vec());
}

#[test]
fn decoded_frames_update_the_bridge() {
    let mut bridge = Bridge::new(false, 4096);
    bridge.dts_active = true;
    bridge.dts_objects_active = true;
    let mut result = PushResult::new();
    let core = CoreFrame {
        sample_rate: 48_000,
        sample_count: 2,
        fullband_channels: vec![vec![1, 2]],
        fullband_channel_order: vec![DcaBedChannel::Center],
        lfe_channel: None,
    };
    bridge.dts_core_decoded(&core, &mut result);
    assert_eq!(result.frames.len(), 1);
    assert_eq!(bridge.total_samples, 2);
    assert!(!bridge.has_objects());
    assert!(bridge.is_ready());

    let hd = hd_frame(
        &full_bed(),
        &vec![vec![0.5; SAMPLE_COUNT]],
        Some(XPresentation::ObjectOnly),
        &[],
        &[],
        &[at(1, 2)],
    );
    let outcome = bridge.dts_hd_decoded(&hd, false, true, true, &mut result);
    assert!(outcome.to_route.is_none());
    assert!(outcome.bed_dropout_reported);
    assert_eq!(outcome.reported, None);
    assert_eq!(result.frames.len(), 2);
    assert_eq!(result.frames[1].metadata[0].sample_pos, 2);
    assert!(bridge.has_objects());
    assert!(bridge.dts_surrounds_on_side);
    assert_eq!(bridge.dts_x.bed_extension_dropouts, 1);
    let expected: Vec<ObjectChannel> = vec![ObjectChannel { id: 10, channel: 8 }];
    assert_eq!(bridge.declared_object_channels, Some(expected));
    let outcome = bridge.dts_hd_decoded(&hd, true, false, false, &mut result);
    assert_eq!(outcome.to_route.unwrap().channel_count, 9);
    assert!(!outcome.bed_dropout_reported);
    assert_eq!(result.frames.len(), 2);
    assert_eq!(bridge.dts_frame_count, 3);
    assert_eq!(bridge.total_samples, 6);
    assert_eq!(active_list(&hd.samples), vec![0, 1, 2, 3, 4, 5, 7, 8]);
}
