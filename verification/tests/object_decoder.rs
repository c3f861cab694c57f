use harletty::eac3::frame::CorePcmFrame;
use harletty::eac3::pcm::{
    AccessUnitInfo, CoreDecode, EmdfPayload, ObjectPcmDecoder, ObjectPcmPushResult,
    ParsedEmdfPayloadData, PcmDecoder,
};
use harletty::eac3::reconstruction::{JocObjectDecoderState, MixSource, ObjectMix, SlotMix};
use harletty::eac3::types::{BedChannel, JocObject, JocObjectData, JocPayload, ParseError};
use harletty::level::Level;

type Info = AccessUnitInfo<f32, &'static str>;

const UNIT: [u8; 4] = [1, 2, 3, 4];

fn object() -> JocObject {
    JocObject {
        active: true,
        bands_index: Some(0),
        bands: 1,
        sparse_coded: false,
        quantization_table: Some(0),
        steep_slope: false,
        data_points: 1,
        timeslot_offsets: Vec::new(),
        data: Some(JocObjectData::Dense {
            matrices: vec![vec![vec![1], vec![1]]],
        }),
    }
}

fn payload(sequence_counter: u16) -> JocPayload<f32> {
    JocPayload {
        downmix_config: 0,
        channel_count: 2,
        object_count: 1,
        gain: 1.0,
        sequence_counter,
        objects: vec![object()],
    }
}

fn info_with(payloads: Vec<EmdfPayload<f32, &'static str>>) -> Info {
    AccessUnitInfo {
        frame_size: UNIT.len(),
        dependent_channel_map: None,
        payloads,
    }
}

fn joc_unit(sequence_counter: u16) -> Info {
    info_with(vec![
        EmdfPayload {
            parsed: ParsedEmdfPayloadData::Oamd("positions"),
            sample_offset: Some(3),
        },
        EmdfPayload {
            parsed: ParsedEmdfPayloadData::Joc(payload(sequence_counter)),
            sample_offset: None,
        },
        EmdfPayload {
            parsed: ParsedEmdfPayloadData::Oamd("more positions"),
            sample_offset: None,
        },
    ])
}

fn plain_unit() -> Info {
    info_with(vec![EmdfPayload {
        parsed: ParsedEmdfPayloadData::Other,
        sample_offset: None,
    }])
}

fn core_frame(sample_rate: u32) -> CorePcmFrame<f32> {
    CorePcmFrame {
        sample_rate,
        fullband_channel_order: vec![BedChannel::FrontLeft, BedChannel::FrontRight],
        fullband_channels: vec![vec![0.5; 1536], vec![-0.25; 1536]],
        lfe_channel: Some(vec![0.25; 1536]),
    }
}

/// The oldest samples of a window stand for its subbands, so that what comes
/// out depends on the history.
fn analyse(window: &[f32]) -> Vec<f32> {
    window[576..].iter().rev().copied().collect()
}

fn mix(analysis: &Vec<Vec<f32>>, mixed: &ObjectMix, slot: usize) -> [f32; 128] {
    let mut block = [0.0; 128];
    if let SlotMix::Blend {
        from,
        to,
        numerator,
        denominator,
    } = mixed.slots[slot]
    {
        let pick = |source: MixSource, channel: usize| match source {
            MixSource::Previous => mixed.previous[channel][0].steps as f32,
            MixSource::First => mixed.points[0][channel][0].steps as f32,
            MixSource::Second => mixed.points[1][channel][0].steps as f32,
        };
        let way = numerator as f32 / denominator as f32;
        for (channel, subbands) in analysis.iter().enumerate() {
            let gain = pick(from, channel) + (pick(to, channel) - pick(from, channel)) * way;
            for (sample, subband) in subbands.iter().enumerate() {
                block[sample] += gain * subband;
            }
        }
    }
    block
}

fn gather(window: &[f32], gain: &f32) -> [f32; 64] {
    let mut output = [0.0; 64];
    for (sample, value) in output.iter_mut().enumerate() {
        *value = (window[sample] + 0.5 * window[1152 + sample]) * gain;
    }
    output
}

/// A decoder whose history counts what it has read and decoded.
type Decoder = ObjectPcmDecoder<f32, u32, fn() -> u32>;

fn nothing_seen() -> u32 {
    0
}

fn new_decoder() -> Decoder {
    ObjectPcmDecoder::new(0.0, nothing_seen)
}

type Pushed = Result<Option<ObjectPcmPushResult<f32, f32, &'static str>>, ParseError>;

/// Decodes a unit from its own core.
fn push_own(
    decoder: &mut Decoder,
    inspect: &impl Fn(&[u8], Level, u32) -> (u32, Result<Info, ParseError>),
) -> Pushed {
    let decode = |_: &[u8], _: &Info, history: u32| (history + 100, Ok(core_frame(48_000)));
    decoder.push_access_unit(&UNIT, inspect, decode, &analyse, &mix, &gather)
}

/// Decodes the unit with this counter and returns its objects and its delayed
/// core.
fn decode(
    decoder: &mut Decoder,
    counter: u16,
    external: Option<CorePcmFrame<f32>>,
) -> (Vec<Vec<f32>>, Vec<Vec<f32>>) {
    let inspect = |_: &[u8], _: Level, history: u32| (history + 1, Ok(joc_unit(counter)));
    let push = match external {
        Some(core) => {
            decoder.push_access_unit_with_core(&UNIT, &inspect, core, &analyse, &mix, &gather)
        }
        None => push_own(decoder, &inspect),
    }
    .expect("unit must decode")
    .expect("unit carries JOC objects");
    assert_eq!(decoder.last_joc_matrices().len(), 1);
    assert_eq!(push.pcm.joc_index, 1);
    assert_eq!(push.pcm.oamd_indices, vec![0, 2]);
    assert_eq!(push.joc().sequence_counter, counter);
    assert_eq!(
        push.oamd_payloads(),
        vec![(&"positions", Some(3)), (&"more positions", None)]
    );
    assert_eq!(push.pcm.object_active, vec![true]);
    assert_eq!(push.pcm.object_count(), 1);
    assert_eq!(push.pcm.samples_per_channel(), 1536);
    (push.pcm.object_channels, push.pcm.core.fullband_channels)
}

#[test]
fn a_repeated_sequence_counter_cold_starts_the_reconstruction() {
    let mut decoder = new_decoder();
    let (first_objects, first_core) = decode(&mut decoder, 7, None);
    let (second_objects, second_core) = decode(&mut decoder, 7, None);

    assert_eq!(
        first_objects.len(),
        second_objects.len(),
        "the object count must not change between two decodes of one frame"
    );
    for (index, (first, second)) in first_objects.iter().zip(&second_objects).enumerate() {
        assert_eq!(
            first, second,
            "object {index} differs between two decodes of the same access unit, \
             so the second inherited reconstruction state from the first"
        );
    }
    assert_eq!(
        first_core, second_core,
        "the delayed core differs, so the alignment delay kept the first pass's tail"
    );
}

#[test]
fn the_frame_after_a_splice_matches_a_decoder_that_never_saw_the_first() {
    let mut warm = new_decoder();
    let _ = decode(&mut warm, 7, None);
    let (after_splice, after_splice_core) = decode(&mut warm, 7, None);

    let mut cold = new_decoder();
    let (from_cold, from_cold_core) = decode(&mut cold, 7, None);

    assert_eq!(
        after_splice, from_cold,
        "the frame after a splice must reconstruct as it would from a cold decoder"
    );
    assert_eq!(
        after_splice_core, from_cold_core,
        "the core after a splice must be delayed as it would be from a cold decoder"
    );
}

#[test]
fn the_external_core_path_cold_starts_at_a_splice_too() {
    let mut decoder = new_decoder();
    let first = decode(&mut decoder, 7, Some(core_frame(48_000)));
    let second = decode(&mut decoder, 7, Some(core_frame(48_000)));
    assert_eq!(first, second);

    let mut cold = new_decoder();
    let from_cold = decode(&mut cold, 7, Some(core_frame(48_000)));
    assert_eq!(
        second.0, from_cold.0,
        "the paired frame after a splice must reconstruct as it would from cold"
    );
}

#[test]
fn a_splice_does_not_rewind_the_frame_count() {
    let mut decoder = new_decoder();
    let _ = decode(&mut decoder, 7, None);
    let _ = decode(&mut decoder, 7, None);
    assert_eq!(decoder.history, 101, "read and decoded once without history");
    assert_eq!(
        decoder.frames_seen(),
        2,
        "both access units were accepted, so both must be counted"
    );
}

#[test]
fn consecutive_counters_carry_the_history_on() {
    let mut decoder = new_decoder();
    let first = decode(&mut decoder, 1023, None);
    let second = decode(&mut decoder, 0, None);
    assert_ne!(first.0, second.0);
    assert_ne!(first.1, second.1);
    assert_eq!(second.1[0][0], 0.5, "the tail of the frame before");
    // A presentation without JOC in between starts the next frame cold.
    decoder.note_non_joc_presentation();
    assert_eq!(decode(&mut decoder, 1, None), first);
}

#[test]
fn a_spliced_unit_is_read_again_without_history() {
    let mut decoder = new_decoder();
    let _ = decode(&mut decoder, 7, None);
    let inspect = |_: &[u8], _: Level, history: u32| {
        let found = if history == 0 {
            Err(ParseError::InvalidHeader("read cold"))
        } else {
            Ok(joc_unit(9))
        };
        (history + 1, found)
    };
    let result = push_own(&mut decoder, &inspect);
    assert!(matches!(result, Err(ParseError::InvalidHeader("read cold"))));
    assert!(decoder.joc_state.is_cold());
}

#[test]
fn a_unit_without_joc_starts_nothing() {
    let mut decoder = new_decoder();
    let inspect = |_: &[u8], _: Level, history: u32| (history + 1, Ok(plain_unit()));
    let result = push_own(&mut decoder, &inspect);
    assert!(matches!(result, Ok(None)));
    assert_eq!(decoder.history, 1, "the unit was read");
    assert_eq!(decoder.frames_seen(), 0);
    assert!(decoder.joc_input_core().is_none());
}

#[test]
fn a_failed_rebuild_clears_the_history() {
    let mut decoder = new_decoder();
    let _ = decode(&mut decoder, 7, None);
    assert!(decoder.joc_input_core().is_some());
    let inspect = |_: &[u8], _: Level, history: u32| {
        let mut joc = payload(8);
        joc.object_count = 2;
        let info = info_with(vec![EmdfPayload {
            parsed: ParsedEmdfPayloadData::Joc(joc),
            sample_offset: None,
        }]);
        (history + 1, Ok(info))
    };
    let result = push_own(&mut decoder, &inspect);
    assert!(matches!(result, Err(ParseError::InvalidHeader("joc-object"))));
    assert!(decoder.joc_state.is_cold());
    assert!(decoder.take_joc_input_core().is_none());
    assert_eq!(decoder.frames_seen(), 1);
    decoder.reset();
    assert_eq!(decoder.frames_seen(), 0);
}

#[test]
fn a_core_reconfiguration_cold_starts_the_object_reconstruction() {
    let at = |sample_rate| CorePcmFrame {
        sample_rate,
        fullband_channel_order: vec![BedChannel::FrontLeft, BedChannel::FrontRight],
        fullband_channels: vec![vec![0.5f32; 64], vec![-0.5; 64]],
        lfe_channel: Some(vec![0.25; 64]),
    };
    let at_48k = at(48_000);
    let joc = payload(0);

    let mut decoder = new_decoder();
    decoder
        .joc_state
        .decode_frame(&at_48k, &joc, &analyse, &mix, &gather)
        .expect("a frame to warm the banks");
    decoder.core_delay.delayed(&at_48k);
    assert!(
        !decoder.joc_state.is_cold(),
        "the reconstruction should be holding history after a frame",
    );
    decoder.reset_history_if_reconfigured(&at_48k);
    assert!(!decoder.joc_state.is_cold());

    let at_44k = at(44_100);
    decoder.reset_history_if_reconfigured(&at_44k);
    assert!(
        decoder.joc_state.is_cold(),
        "a sample-rate change left the filter banks warm",
    );
}

/// A unit as reading its syntax shows it, whose JOC payload declares the
/// five-channel downmix.
fn independent_joc() -> Info {
    let mut joc = payload(0);
    joc.downmix_config = 3;
    joc.channel_count = 5;
    info_with(vec![
        EmdfPayload {
            parsed: ParsedEmdfPayloadData::Oamd("positions"),
            sample_offset: None,
        },
        EmdfPayload {
            parsed: ParsedEmdfPayloadData::Joc(joc),
            sample_offset: None,
        },
    ])
}

#[test]
fn a_parsed_access_unit_surfaces_the_joc_downmix_configuration() {
    let info = independent_joc();
    let joc = info
        .first_joc_payload()
        .expect("unit carries a JOC payload");

    assert_eq!(joc.downmix_config, 3);
    assert_eq!(joc.channel_count, 5);
    assert_eq!(info.joc_payload_count(), 1);
}

#[test]
fn the_channel_count_follows_the_configuration_index() {
    let info = independent_joc();
    let joc = info
        .first_joc_payload()
        .expect("unit carries a JOC payload");

    let declared = match joc.downmix_config {
        0 | 3 => 5,
        1 | 2 | 4 => 7,
        other => panic!("joc_dmx_config_idx {other} is outside Table 47"),
    };
    assert_eq!(joc.channel_count, declared);
    assert_eq!(joc.declared_channels(), Some(declared));
    for (config, channels) in [(0, Some(5)), (1, Some(7)), (2, Some(7)), (4, Some(7)), (5, None)] {
        let mut other = payload(0);
        other.downmix_config = config;
        assert_eq!(other.declared_channels(), channels);
    }
}

#[test]
fn an_access_unit_without_joc_declares_no_downmix() {
    let info = plain_unit();

    assert_eq!(info.joc_payload_count(), 0);
    assert!(info.first_joc_payload().is_none());
}

fn core_decode(spx_in_use: bool) -> CoreDecode<f32> {
    CoreDecode {
        pcm: core_frame(48_000),
        spx_in_use,
        chinspx: vec![true, false],
    }
}

#[test]
fn the_core_decoder_counts_what_it_accepts() {
    let mut decoder = PcmDecoder::new(nothing_seen);
    decoder.set_debug_log_level(Level::Warn);
    assert_eq!(decoder.apply_debug_log_level(), Level::Warn);
    let push = decoder
        .push_access_unit(
            &UNIT,
            |unit: &[u8], level: Level, history: u32| {
                assert_eq!(unit, &UNIT[..]);
                assert_eq!(level, Level::Warn);
                (history + 1, Ok(plain_unit()))
            },
            |_: &[u8], _: &Info, history: u32| (history + 10, Ok(core_decode(true))),
        )
        .unwrap();
    assert_eq!(push.frames_seen, 1);
    assert_eq!(decoder.frames_seen(), 1);
    assert!(decoder.last_spx_in_use());
    assert_eq!(decoder.last_chinspx(), &[true, false]);
    let push = decoder
        .push_legacy_ac3_access_unit(
            &UNIT,
            |_: &[u8], _: Level, history: u32| (history + 1, Ok(plain_unit())),
            |_: &[u8], _: &Info, history: u32| (history + 10, Ok(core_decode(false))),
        )
        .unwrap();
    assert_eq!(push.frames_seen, 2);
    assert!(!decoder.last_spx_in_use());
    assert_eq!(decoder.history, 22);
    decoder.reset();
    assert_eq!(decoder.history, 0);
    assert_eq!(decoder.debug_log_level, Level::Warn);
    assert_eq!(decoder.frames_seen(), 0);
    assert!(decoder.last_chinspx().is_empty());
}

#[test]
fn a_failed_core_decode_resets_the_state_but_not_the_count() {
    let mut decoder = PcmDecoder::new(nothing_seen);
    let mut push = |unit: &[u8], inspected: Result<Info, ParseError>, fails: bool| {
        let result = decoder.push_access_unit(
            unit,
            move |_: &[u8], _: Level, history: u32| (history + 1, inspected),
            move |_: &[u8], _: &Info, history: u32| {
                let decoded = if fails {
                    Err(ParseError::UnsupportedFeature("core"))
                } else {
                    Ok(core_decode(true))
                };
                (history + 10, decoded)
            },
        );
        // No history survives a failure.
        assert_eq!(decoder.history == 0, result.is_err());
        (result.err(), decoder.frames_seen(), decoder.last_spx_in_use())
    };
    assert!(matches!(push(&UNIT, Ok(plain_unit()), false), (None, 1, true)));
    assert!(matches!(
        push(&UNIT[..3], Ok(plain_unit()), false),
        (
            Some(ParseError::TruncatedFrame {
                expected: 4,
                available: 3
            }),
            1,
            false
        )
    ));
    assert!(matches!(push(&UNIT, Ok(plain_unit()), false), (None, 2, true)));
    assert!(matches!(
        push(&[0; 5], Ok(plain_unit()), false),
        (
            Some(ParseError::TrailingData {
                expected: 4,
                provided: 5
            }),
            2,
            false
        )
    ));
    assert!(matches!(
        push(&UNIT, Ok(plain_unit()), true),
        (Some(ParseError::UnsupportedFeature("core")), 2, false)
    ));
    assert!(matches!(
        push(&UNIT, Err(ParseError::InvalidHeader("bsid")), false),
        (Some(ParseError::InvalidHeader("bsid")), 2, false)
    ));
}

#[test]
fn objects_come_out_slot_by_slot() {
    let core = CorePcmFrame {
        sample_rate: 48_000,
        fullband_channel_order: vec![BedChannel::FrontLeft, BedChannel::FrontRight],
        fullband_channels: vec![(0..128).map(|n| n as f32).collect(), vec![0.0; 128]],
        lfe_channel: None,
    };
    let mut joc = payload(0);
    joc.object_count = 2;
    joc.gain = 2.0;
    let mut idle = object();
    idle.active = false;
    joc.objects.push(idle);
    // The newest samples of a window, in time order.
    let newest = |window: &[f32]| window[..64].iter().rev().copied().collect::<Vec<f32>>();
    let place = |analysis: &Vec<Vec<f32>>, mixed: &ObjectMix, slot: usize| {
        let mut block = [0.0; 128];
        for (sample, value) in block[..64].iter_mut().enumerate() {
            *value = analysis[0][sample] + 1000.0 * (slot + mixed.slots.len()) as f32;
        }
        block
    };
    let front = |window: &[f32], gain: &f32| {
        let mut output = [0.0; 64];
        for (sample, value) in output.iter_mut().enumerate() {
            *value = window[sample] * gain;
        }
        output
    };
    let mut state = JocObjectDecoderState::new(0.0f32);
    let objects = state
        .decode_frame(&core, &joc, &newest, &place, &front)
        .unwrap();
    let expected: Vec<f32> = (0..128)
        .map(|n| 2.0 * (n as f32 + 1000.0 * (n / 64 + 2) as f32))
        .collect();
    assert_eq!(objects, vec![expected.clone(), vec![0.0; 128]]);
    assert_eq!(state.inverse_history, vec![true, false]);
    assert_eq!(state.last_frame_matrices().len(), 2);
    assert_eq!(state.last_frame_matrices()[1].slots[0], SlotMix::Silent);

    // Into a list that is reused.
    let mut reused = vec![vec![9.0f32; 3]; 5];
    let mut state = JocObjectDecoderState::new(0.0f32);
    state
        .decode_frame_into(&core, &joc, &mut reused, &newest, &place, &front)
        .unwrap();
    assert_eq!(reused, vec![expected, vec![0.0; 128]]);
    joc.channel_count = 8;
    let failed = state.decode_frame_into(&core, &joc, &mut reused, &newest, &place, &front);
    assert!(matches!(
        failed,
        Err(ParseError::UnsupportedFeature("joc-channel-count"))
    ));
    assert_eq!(reused.len(), 2);
}

#[test]
fn an_object_plays_its_tail_out_once_it_was_active() {
    let core = core_frame(48_000);
    let mut joc = payload(0);
    let mut state = JocObjectDecoderState::new(0.0f32);
    joc.objects[0].active = false;
    let silent = state
        .decode_frame(&core, &joc, &analyse, &mix, &gather)
        .unwrap();
    assert!(silent[0].iter().all(|&sample| sample == 0.0));
    assert_eq!(state.inverse_history, vec![false]);
    joc.objects[0].active = true;
    let _ = state.decode_frame(&core, &joc, &analyse, &mix, &gather);
    joc.objects[0].active = false;
    let tail = state
        .decode_frame(&core, &joc, &analyse, &mix, &gather)
        .unwrap();
    assert!(tail[0][..576].iter().any(|&sample| sample != 0.0));
    assert!(tail[0][1280..].iter().all(|&sample| sample == 0.0));
    assert_eq!(state.inverse_history, vec![true]);
}
