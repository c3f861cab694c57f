use harletty::eac3::frame::CorePcmFrame;
use harletty::eac3::pcm::{
    AccessUnitInfo, EmdfPayload, ObjectPcmFrame, ObjectPcmPushResult, ParsedEmdfPayloadData,
    PcmPushResult,
};
use harletty::eac3::stream::{
    DecodedObjects, FrameMessage, StreamState, UnitClass, UnitHeader, UnitOutcome, UnitStep,
};
use harletty::eac3::types::{BedChannel, JocPayload, ParseError};

type Stream = StreamState<i32, (), ()>;

fn info(dependent_channel_map: Option<u16>) -> AccessUnitInfo<(), ()> {
    AccessUnitInfo {
        frame_size: 1,
        dependent_channel_map,
        payloads: vec![],
    }
}

fn pcm(value: i32) -> CorePcmFrame<i32> {
    CorePcmFrame {
        sample_rate: 48_000,
        fullband_channel_order: vec![BedChannel::FrontLeft],
        fullband_channels: vec![vec![value]],
        lfe_channel: None,
    }
}

fn push(value: i32) -> PcmPushResult<i32, (), ()> {
    PcmPushResult {
        frames_seen: 1,
        info: info(None),
        pcm: pcm(value),
    }
}

fn objects(value: i32) -> ObjectPcmPushResult<i32, (), ()> {
    ObjectPcmPushResult {
        frames_seen: 1,
        info: info(None),
        pcm: ObjectPcmFrame {
            core: pcm(value),
            object_channels: vec![],
            object_active: vec![],
            joc_index: 0,
            oamd_indices: vec![],
        },
    }
}

/// First sample of each message; silence counts as its negative length.
fn sent(out: &[FrameMessage<i32, (), ()>]) -> Vec<i32> {
    out.iter()
        .map(|message| match message {
            FrameMessage::Core(push) => push.pcm.fullband_channels[0][0],
            FrameMessage::Object(push) => push.pcm.core.fullband_channels[0][0],
            FrameMessage::Silence { sample_count, .. } => -(*sample_count as i32),
        })
        .collect()
}

#[test]
fn a_plain_core_goes_out_once_the_next_unit_shows_it_stands_alone() {
    let mut stream = Stream::new();
    let mut out = Vec::new();
    let (step, gap) = stream.begin_unit(UnitClass::Independent, &mut out);
    assert!(matches!(step, UnitStep::DecodeObjects));
    assert!(!gap);
    stream.core_decoded(push(1));
    assert!(out.is_empty());
    let (step, gap) = stream.begin_unit(UnitClass::LegacyAc3, &mut out);
    assert!(matches!(step, UnitStep::DecodeLegacy));
    assert!(gap);
    assert_eq!(sent(&out), vec![1]);
    stream.legacy_decoded(push(2));
    assert!(stream.flush_pending(&mut out));
    assert_eq!(sent(&out), vec![1, 2]);
    assert!(!stream.flush_pending(&mut out));
    assert_eq!(stream.frame_count, 2);
}

#[test]
fn a_pair_sends_exactly_one_message() {
    let mut stream = Stream::new();
    let mut out = Vec::new();
    stream.legacy_decoded(push(3));
    let (step, gap) = stream.begin_unit(UnitClass::Dependent, &mut out);
    assert!(!gap);
    let core = match step {
        UnitStep::PairCore(core) => core,
        other => panic!("{other:?}"),
    };
    assert!(!Stream::pair_has_objects(&info(Some(0x0200))));
    let dependent = CorePcmFrame {
        sample_rate: 48_000,
        fullband_channel_order: vec![],
        fullband_channels: vec![vec![4], vec![5]],
        lfe_channel: None,
    };
    stream.handle_core_pair(core, info(Some(0x0200)), Some(dependent), &mut out);
    assert_eq!(stream.frame_count, 1);
    match &out[0] {
        FrameMessage::Core(push) => {
            assert_eq!(push.frames_seen, 1);
            assert_eq!(push.pcm.fullband_channels, vec![vec![3], vec![4], vec![5]]);
        }
        other => panic!("{other:?}"),
    }
    // What does not line up leaves the core alone.
    stream.core_decoded(push(6));
    match stream.begin_unit(UnitClass::Dependent, &mut out).0 {
        UnitStep::PairCore(core) => {
            stream.handle_core_pair(core, info(None), Some(pcm(7)), &mut out)
        }
        other => panic!("{other:?}"),
    }
    assert_eq!(sent(&out), vec![3, 6]);
}

#[test]
fn an_object_frame_goes_out_at_once_and_keeps_its_core() {
    let mut stream = Stream::new();
    let mut out = Vec::new();
    stream.objects_decoded(objects(1), Some(pcm(2)), &mut out);
    assert_eq!(sent(&out), vec![1]);
    match stream.begin_unit(UnitClass::Dependent, &mut out).0 {
        UnitStep::PairObject { joc_input } => assert_eq!(joc_input.fullband_channels[0][0], 2),
        other => panic!("{other:?}"),
    }
    stream.pair_objects_decoded(objects(3), &mut out);
    assert_eq!(sent(&out), vec![1, 3]);
    let (step, _) = stream.begin_unit(UnitClass::Dependent, &mut out);
    assert!(matches!(step, UnitStep::Skip));
    stream.objects_decoded(objects(4), None, &mut out);
    assert!(!stream.flush_pending(&mut out));
    assert_eq!(stream.frame_count, 3);
}

#[test]
fn a_failure_drops_what_is_held_and_sends_silence() {
    let mut stream = Stream::new();
    let mut out = Vec::new();
    stream.core_decoded(push(1));
    assert!(stream.surface_decode_err(false, 1536, 48_000, 6, &mut out));
    assert_eq!(sent(&out), vec![-1536]);
    assert!(!stream.flush_pending(&mut out));
    stream.legacy_decoded(push(2));
    assert!(!stream.surface_decode_err(true, 1536, 48_000, 6, &mut out));
    assert_eq!(out.len(), 1);
    assert_eq!(stream.frame_count, 1);
}

fn joc_info(dependent_channel_map: Option<u16>) -> AccessUnitInfo<(), ()> {
    let mut found = info(dependent_channel_map);
    found.payloads.push(EmdfPayload {
        sample_offset: None,
        parsed: ParsedEmdfPayloadData::Joc(JocPayload {
            downmix_config: 0,
            channel_count: 1,
            object_count: 0,
            gain: (),
            sequence_counter: 0,
            objects: vec![],
        }),
    });
    found
}

/// What the decoders make of a unit. Objects come with the first sample of the
/// core that they are given, or with that of `objects`.
struct Unit {
    class: UnitClass,
    core: Option<i32>,
    objects: Result<Option<i32>, ()>,
    joc_input: Option<i32>,
    info: Option<AccessUnitInfo<(), ()>>,
    dependent: Option<CorePcmFrame<i32>>,
}

fn unit(class: UnitClass) -> Unit {
    Unit {
        class,
        core: None,
        objects: Ok(None),
        joc_input: None,
        info: Some(info(None)),
        dependent: None,
    }
}

const BROKEN: ParseError = ParseError::InvalidHeader("broken");

fn handle(
    stream: &mut Stream,
    strict: bool,
    unit: Unit,
    out: &mut Vec<FrameMessage<i32, (), ()>>,
) -> UnitOutcome {
    let Unit {
        class,
        core,
        objects: found,
        joc_input,
        info,
        dependent,
    } = unit;
    let decode = || core.map(push).ok_or(BROKEN);
    stream.handle_frame(
        class,
        UnitHeader {
            sample_count: 1536,
            sample_rate: 48_000,
            channel_count: 6,
        },
        strict,
        decode,
        |gap, given: Option<CorePcmFrame<i32>>| {
            let base = given.map_or(0, |given| given.fullband_channels[0][0]);
            let told = if gap { 1000 } else { 0 };
            found.map_err(|()| BROKEN).map(|found| {
                found.map(|value| DecodedObjects {
                    push: objects(value + base + told),
                    joc_input: joc_input.map(pcm),
                })
            })
        },
        decode,
        || info.ok_or(BROKEN),
        || dependent,
        out,
    )
}

#[test]
fn every_pair_with_a_core_sends_one_message() {
    let dependent = || CorePcmFrame {
        sample_rate: 48_000,
        fullband_channel_order: vec![],
        fullband_channels: vec![vec![4], vec![5]],
        lfe_channel: None,
    };
    let cases = [
        (info(Some(0x0200)), Ok(None), Some(dependent()), 3, true),
        (info(None), Ok(None), Some(dependent()), 3, true),
        (info(Some(0x0200)), Ok(None), None, 3, true),
        // The objects are rebuilt from the core in hand.
        (joc_info(None), Ok(Some(40)), None, 43, false),
        // A JOC payload without objects falls back to the bed.
        (joc_info(Some(0x0200)), Ok(None), Some(dependent()), 3, true),
        (joc_info(None), Err(()), None, -1536, false),
    ];
    for (read, found, channels, value, gap) in cases {
        for legacy in [true, false] {
            let mut stream = Stream::new();
            let mut out = Vec::new();
            let mut first = unit(if legacy {
                UnitClass::LegacyAc3
            } else {
                UnitClass::Independent
            });
            first.core = Some(3);
            let outcome = handle(&mut stream, false, first, &mut out);
            assert!(outcome.goes_on && outcome.failure.is_none() && out.is_empty());
            let mut second = unit(UnitClass::Dependent);
            second.info = Some(AccessUnitInfo {
                frame_size: read.frame_size,
                dependent_channel_map: read.dependent_channel_map,
                payloads: if read.payloads.is_empty() {
                    vec![]
                } else {
                    joc_info(None).payloads
                },
            });
            second.objects = found;
            second.dependent = channels.as_ref().map(|_| dependent());
            let outcome = handle(&mut stream, false, second, &mut out);
            assert!(outcome.goes_on);
            assert_eq!(outcome.gap, gap);
            assert_eq!(outcome.failure.is_some(), value < 0);
            assert_eq!(sent(&out), vec![value]);
            assert_eq!(stream.frame_count, 1);
            assert!(!stream.flush_pending(&mut out));
        }
    }
}

#[test]
fn a_pair_lays_the_dependents_channels_over_the_core() {
    let mut stream = Stream::new();
    let mut out = Vec::new();
    let mut first = unit(UnitClass::Independent);
    first.core = Some(3);
    handle(&mut stream, false, first, &mut out);
    let mut second = unit(UnitClass::Dependent);
    second.info = Some(info(Some(0x0200)));
    second.dependent = Some(CorePcmFrame {
        sample_rate: 48_000,
        fullband_channel_order: vec![],
        fullband_channels: vec![vec![4], vec![5]],
        lfe_channel: None,
    });
    handle(&mut stream, false, second, &mut out);
    match &out[0] {
        FrameMessage::Core(push) => {
            assert_eq!(push.frames_seen, 1);
            assert_eq!(push.pcm.fullband_channels, vec![vec![3], vec![4], vec![5]]);
        }
        other => panic!("{other:?}"),
    }
}

#[test]
fn units_are_sent_in_order_and_a_gap_is_told_before_objects() {
    let mut stream = Stream::new();
    let mut out = Vec::new();
    let mut plain = unit(UnitClass::Independent);
    plain.core = Some(1);
    assert!(!handle(&mut stream, false, plain, &mut out).gap);
    // The held core goes out first, and the object decoder hears of the gap.
    let mut object = unit(UnitClass::Independent);
    object.objects = Ok(Some(2));
    object.joc_input = Some(70);
    assert!(!handle(&mut stream, false, object, &mut out).gap);
    assert_eq!(sent(&out), vec![1, 1002]);
    // A dependent behind it is rebuilt from the core that was kept.
    let mut dependent = unit(UnitClass::Dependent);
    dependent.objects = Ok(Some(5));
    handle(&mut stream, false, dependent, &mut out);
    assert_eq!(sent(&out), vec![1, 1002, 75]);
    // Another one has nothing to pair with.
    let mut orphan = unit(UnitClass::Dependent);
    orphan.objects = Ok(Some(9));
    let outcome = handle(&mut stream, false, orphan, &mut out);
    assert!(outcome.goes_on && !outcome.gap);
    assert_eq!(out.len(), 3);
    // A legacy core in front of another one is a gap that is still to be told.
    let mut legacy = unit(UnitClass::LegacyAc3);
    legacy.core = Some(6);
    assert!(!handle(&mut stream, false, legacy, &mut out).gap);
    let mut legacy = unit(UnitClass::LegacyAc3);
    legacy.core = Some(7);
    assert!(handle(&mut stream, false, legacy, &mut out).gap);
    assert_eq!(sent(&out), vec![1, 1002, 75, 6]);
    assert_eq!(stream.frame_count, 4);
}

#[test]
fn a_unit_that_fails_stops_a_strict_stream_only() {
    for strict in [false, true] {
        let mut stream = Stream::new();
        let mut out = Vec::new();
        let mut plain = unit(UnitClass::Independent);
        plain.core = Some(1);
        handle(&mut stream, strict, plain, &mut out);
        let outcome = handle(&mut stream, strict, unit(UnitClass::LegacyAc3), &mut out);
        assert_eq!(outcome.goes_on, !strict);
        assert!(matches!(outcome.failure, Some(ParseError::InvalidHeader("broken"))));
        assert!(!outcome.gap);
        assert_eq!(sent(&out), if strict { vec![1] } else { vec![1, -1536] });
        let mut broken = unit(UnitClass::Dependent);
        broken.info = None;
        stream.core_decoded(push(8));
        let outcome = handle(&mut stream, strict, broken, &mut out);
        assert!(outcome.failure.is_some());
    }
}
