use harletty::bridge::bridge::{
    AtmosBridge, Eac3Decode, Eac3Step, Eac3UnitKind, InputTransport, PacketRoute,
    PendingEac3Core, PushResult, Resolution,
};
use harletty::bridge::codec::{sniff_raw_codec, DrcMode, RawCodec};
use harletty::bridge::frame::{DecodedFrame, SphericalPosition};
use harletty::eac3::frame::CorePcmFrame;
use harletty::eac3::pcm::PcmPushResult;
use harletty::level::Level;

type Bridge = AtmosBridge<u32, u32, ()>;

const MAX_BLOCK: usize = 4096;

fn bridge(strict: bool) -> Bridge {
    AtmosBridge::new(strict, MAX_BLOCK)
}

#[test]
fn sniff_detects_eac3_syncword() {
    assert_eq!(
        sniff_raw_codec(&[0x0B, 0x77, 0x00, 0x00]),
        Some(RawCodec::Eac3)
    );
    // Byte-swapped 16-bit order is still E-AC3.
    assert_eq!(
        sniff_raw_codec(&[0x77, 0x0B, 0x00, 0x00]),
        Some(RawCodec::Eac3)
    );
}

#[test]
fn sniff_detects_truehd_major_sync() {
    let buf = [0x00, 0x00, 0x00, 0x00, 0xF8, 0x72, 0x6F, 0xBA];
    assert_eq!(sniff_raw_codec(&buf), Some(RawCodec::TrueHd));
}

#[test]
fn sniff_unknown_is_none() {
    assert_eq!(sniff_raw_codec(&[0x12, 0x34, 0x56, 0x78]), None);
    assert_eq!(sniff_raw_codec(&[0x0B]), None); // too short
}

#[test]
fn sniff_detects_dts_syncwords() {
    // Core syncword 0x7FFE8001.
    assert_eq!(
        sniff_raw_codec(&[0x7F, 0xFE, 0x80, 0x01]),
        Some(RawCodec::Dts)
    );
    // Extension substream syncword 0x64582025.
    assert_eq!(
        sniff_raw_codec(&[0x64, 0x58, 0x20, 0x25]),
        Some(RawCodec::Dts)
    );
}

#[test]
fn resolve_prefers_forced_codec_and_locks() {
    let mut bridge = bridge(false);
    bridge.forced_raw_codec = Some(RawCodec::Eac3);
    // Unrecognisable bytes, but the host-declared codec wins.
    assert_eq!(
        bridge.resolve_raw_codec(&[0x12, 0x34, 0x56, 0x78]),
        RawCodec::Eac3
    );
    assert_eq!(bridge.raw_codec, Some(RawCodec::Eac3));
}

#[test]
fn resolve_sniffs_when_unforced() {
    let mut eac3 = bridge(false);
    assert_eq!(eac3.resolve_raw_codec(&[0x0B, 0x77, 0, 0]), RawCodec::Eac3);
    assert_eq!(eac3.raw_codec, Some(RawCodec::Eac3));

    let mut thd = bridge(false);
    let buf = [0, 0, 0, 0, 0xF8, 0x72, 0x6F, 0xBA];
    assert_eq!(thd.resolve_raw_codec(&buf), RawCodec::TrueHd);
    assert_eq!(thd.raw_codec, Some(RawCodec::TrueHd));
}

#[test]
fn resolve_unknown_first_packet_defaults_truehd_without_locking() {
    let mut bridge = bridge(false);
    // No recognisable sync → treat as TrueHD for this packet but do NOT
    // lock, so a later syncful packet can still pin the codec.
    assert_eq!(
        bridge.resolve_raw_codec(&[0x12, 0x34, 0x56, 0x78]),
        RawCodec::TrueHd
    );
    assert_eq!(bridge.raw_codec, None);
    assert_eq!(bridge.resolve_raw_codec(&[0x0B, 0x77]), RawCodec::Eac3);
    assert_eq!(bridge.resolve_raw_codec(&[0x7F, 0xFE, 0x80, 0x01]), RawCodec::Eac3);
}

#[test]
fn configure_input_codec_accepts_dts() {
    let mut bridge = bridge(false);
    assert!(bridge.configure("input_codec", "dts"));
    assert_eq!(bridge.forced_raw_codec, Some(RawCodec::Dts));
}

#[test]
fn configure_knows_every_codec_name() {
    let mut bridge = bridge(false);
    for (name, codec) in [
        ("eac3", Some(RawCodec::Eac3)),
        ("ec3", Some(RawCodec::Eac3)),
        ("e-ac3", Some(RawCodec::Eac3)),
        ("ac3", Some(RawCodec::Eac3)),
        ("truehd", Some(RawCodec::TrueHd)),
        ("mlp", Some(RawCodec::TrueHd)),
        ("dca", Some(RawCodec::Dts)),
        ("dtsx", Some(RawCodec::Dts)),
        ("dts:x", Some(RawCodec::Dts)),
        ("dts-hd", Some(RawCodec::Dts)),
        ("dtshd", Some(RawCodec::Dts)),
        ("auto", None),
        ("", None),
    ] {
        bridge.raw_codec = Some(RawCodec::TrueHd);
        assert!(bridge.configure("input_codec", name), "{}", name);
        assert_eq!(bridge.forced_raw_codec, codec);
        assert_eq!(bridge.raw_codec, None);
    }
    bridge.raw_codec = Some(RawCodec::TrueHd);
    assert!(!bridge.configure("input_codec", "opus"));
    assert_eq!(bridge.raw_codec, Some(RawCodec::TrueHd));
    assert!(!bridge.configure("perf_profile", "1"));
    assert!(!bridge.configure("volume", "1"));
}

#[test]
fn configure_presentation_reads_a_number_in_range() {
    let mut bridge = bridge(false);
    assert_eq!(bridge.presentation, 3);
    assert!(bridge.has_objects());
    for (value, presentation) in [("0", 0), ("2", 2), ("+1", 1), ("003", 3), ("best", 3)] {
        assert!(bridge.configure("presentation", value), "{}", value);
        assert_eq!(bridge.presentation, presentation);
    }
    for value in ["4", "255", "256", "-0", "+", "", "1 ", "one"] {
        assert!(!bridge.configure("presentation", value), "{}", value);
        assert_eq!(bridge.presentation, 3);
    }
    assert!(bridge.configure("presentation", "1"));
    assert_eq!(bridge.required_presentations(), [true, true, false, false]);
    assert!(!bridge.has_objects());
}

#[test]
fn drc_modes_have_several_names() {
    let mut bridge = bridge(false);
    assert_eq!(bridge.drc_mode, DrcMode::Off);
    for mode in ["Standard", "Line", "standard/line"] {
        assert!(bridge.set_drc_mode(mode));
        assert_eq!(bridge.drc_mode, DrcMode::Standard);
    }
    for mode in ["Heavy", "RF", "heavy/RF"] {
        assert!(bridge.set_drc_mode(mode));
        assert_eq!(bridge.drc_mode, DrcMode::Heavy);
    }
    assert!(!bridge.set_drc_mode("off"));
    assert_eq!(bridge.drc_mode, DrcMode::Heavy);
    assert!(bridge.set_drc_mode("Off"));
    assert_eq!(bridge.drc_mode, DrcMode::Off);
    assert_eq!(Bridge::supported_drc_modes(), ["Off", "standard/line", "heavy/RF"]);
}

#[test]
fn packets_go_by_transport_and_data_type() {
    let mut bridge = bridge(false);
    let mut result = PushResult::new();
    let mut route = |transport, data_type, data: &[u8]| {
        let route = bridge.push_packet(data, transport, data_type, &mut result);
        (route, bridge.eac3_active, bridge.dts_active)
    };
    let iec = InputTransport::Iec61937;
    assert_eq!(route(iec, 0x15, &[]), (PacketRoute::Eac3Spdif, true, false));
    assert_eq!(route(iec, 0x16, &[]), (PacketRoute::TrueHdMat, false, false));
    assert_eq!(route(iec, 0x0B, &[]), (PacketRoute::Dts, false, true));
    assert_eq!(route(iec, 0x0D, &[]), (PacketRoute::Dts, false, true));
    assert_eq!(route(iec, 0x11, &[]), (PacketRoute::DtsHd, false, true));
    assert_eq!(route(iec, 0x01, &[]), (PacketRoute::Unsupported, false, true));
    assert_eq!(route(iec, 0x15, &[]), (PacketRoute::Eac3Spdif, true, false));
    assert_eq!(route(iec, 0x0C, &[]), (PacketRoute::Dts, false, true));
    assert_eq!(route(iec, 0x16, &[]), (PacketRoute::TrueHdMat, false, false));
    let raw = InputTransport::Raw;
    assert_eq!(
        route(raw, 0, &[0x0B, 0x77]),
        (PacketRoute::Eac3Raw, true, false)
    );
    assert!(!result.did_reset);
    assert_eq!(result.error_message, "");
}

#[test]
fn a_strict_bridge_resets_on_an_unsupported_data_type() {
    let mut bridge = bridge(true);
    bridge.total_samples = 7;
    bridge.dts_buf = vec![1, 2, 3];
    bridge.forced_raw_codec = Some(RawCodec::Dts);
    bridge.raw_codec = Some(RawCodec::Dts);
    let mut result = PushResult::new();
    let route = bridge.push_packet(&[], InputTransport::Iec61937, 0x1A, &mut result);
    assert_eq!(route, PacketRoute::Unsupported);
    assert!(result.did_reset);
    assert_eq!(
        result.error_message,
        "Unsupported IEC 61937 data type for this bridge: 0x1A"
    );
    assert!(bridge.dts_buf.is_empty());
    assert_eq!(bridge.raw_codec, None);
    assert_eq!(bridge.forced_raw_codec, Some(RawCodec::Dts));
    assert_eq!(bridge.total_samples, 7);
    assert_eq!(bridge.decoder_settings().fail_level, Level::Warn);
}

#[test]
fn failures_follow_the_policy_of_their_path() {
    let mut lenient = bridge(false);
    let mut result = PushResult::new();
    let settings = lenient.mat_failed("mat".to_string(), &mut result);
    assert_eq!(settings.fail_level, Level::Error);
    assert!(result.did_reset);
    assert_eq!(result.error_message, "");
    let mut result = PushResult::new();
    assert!(lenient.dts_failed("dts".to_string(), &mut result).is_none());
    assert!(!result.did_reset);
    lenient.eac3_failed("eac3".to_string(), &mut result);
    assert!(result.did_reset);
    assert_eq!(result.error_message, "eac3");

    let mut strict = bridge(true);
    let mut result = PushResult::new();
    strict.mat_failed("mat".to_string(), &mut result);
    assert_eq!(result.error_message, "mat");
    let mut result = PushResult::new();
    assert!(strict.dts_failed("dts".to_string(), &mut result).is_some());
    assert!(result.did_reset);
    assert_eq!(result.error_message, "dts");
    let mut result = PushResult::new();
    strict.finish_failed("pair".to_string(), &mut result);
    assert_eq!(result.error_message, "pair");
    assert_eq!(strict.eac3_diag_stats.dependent_pair_failures, 1);
    assert_eq!(
        strict.eac3_diag_stats.last_dependent_pair_error.as_deref(),
        Some("pair")
    );
}

fn kind(dependent: bool, carries_joc: bool, legacy: bool, can: bool) -> Eac3UnitKind {
    Eac3UnitKind {
        dependent,
        carries_joc,
        legacy,
        can_carry_dependents: can,
    }
}

#[test]
fn a_dependent_without_a_core_is_dropped() {
    let mut bridge = bridge(false);
    let dependent = kind(true, true, false, false);
    assert_eq!(bridge.begin_access_unit(&[1], dependent), Eac3Step::Nothing);
    assert_eq!(bridge.eac3_diag_stats.dependent_frames_dropped, 1);
    assert_eq!(bridge.eac3_frame_count, 1);
    assert!(matches!(bridge.resolve_pending_presentation(), Resolution::Empty));
    assert!(bridge.is_ready());
}

#[test]
fn dependents_gather_until_one_carries_joc() {
    let mut bridge = bridge(false);
    let core = kind(false, false, false, true);
    assert_eq!(
        bridge.begin_access_unit(&[0], core),
        Eac3Step::ResolveAndDecode
    );
    assert_eq!(bridge.decode_plan(core, false), Eac3Decode::Core);
    bridge.independent_core_decoded(11);
    let plain = kind(true, false, false, false);
    assert_eq!(bridge.begin_access_unit(&[1], plain), Eac3Step::Nothing);
    let joc = kind(true, true, false, false);
    assert_eq!(bridge.begin_access_unit(&[2, 3], joc), Eac3Step::Resolve);
    match bridge.resolve_pending_presentation() {
        Resolution::Group {
            core: PendingEac3Core::Independent(push),
            dependents,
            joc,
        } => {
            assert_eq!(push, 11);
            assert_eq!(dependents, vec![vec![1], vec![2, 3]]);
            assert!(joc);
        }
        other => panic!("{other:?}"),
    }
    assert_eq!(bridge.eac3_diag_stats.dependent_pair_attempts, 1);
}

#[test]
fn a_ninth_dependent_ends_the_group_and_is_dropped() {
    let mut bridge = bridge(false);
    bridge.legacy_core_decoded(5, &[9, 9]);
    let plain = kind(true, false, false, false);
    for unit in 0..8u8 {
        assert_eq!(bridge.begin_access_unit(&[unit], plain), Eac3Step::Nothing);
    }
    assert_eq!(bridge.begin_access_unit(&[8], plain), Eac3Step::Resolve);
    assert_eq!(bridge.eac3_diag_stats.dependent_frames_dropped, 1);
    match bridge.resolve_pending_presentation() {
        Resolution::Group {
            core: PendingEac3Core::LegacyAc3 { core, access_unit },
            dependents,
            joc,
        } => {
            assert_eq!(core, 5);
            assert_eq!(access_unit, vec![9, 9]);
            assert_eq!(dependents.len(), 8);
            assert!(!joc);
        }
        other => panic!("{other:?}"),
    }
}

#[test]
fn a_core_without_dependents_stands_alone() {
    let mut bridge = bridge(false);
    let legacy = kind(false, false, true, false);
    assert_eq!(bridge.decode_plan(legacy, false), Eac3Decode::Legacy);
    assert_eq!(bridge.decode_plan(legacy, true), Eac3Decode::Whole);
    assert_eq!(
        bridge.decode_plan(kind(false, true, false, true), false),
        Eac3Decode::Whole
    );
    bridge.legacy_core_failed("no sync".to_string());
    assert_eq!(
        bridge.eac3_diag_stats.last_ac3_core_decode_error.as_deref(),
        Some("no sync")
    );
    assert_eq!(bridge.eac3_diag_stats.ac3_core_decode_failures, 1);
    bridge.legacy_core_decoded(5, &[1]);
    assert_eq!(bridge.eac3_diag_stats.ac3_core_decoded, 1);
    assert_eq!(
        bridge.begin_access_unit(&[2], legacy),
        Eac3Step::ResolveAndDecode
    );
    assert!(matches!(
        bridge.resolve_pending_presentation(),
        Resolution::Standalone(PendingEac3Core::LegacyAc3 { core: 5, .. })
    ));
}

/// Hosts may create the bridge on a thread with a small stack.
#[test]
fn atmos_bridge_stack_footprint_stays_small() {
    const BUDGET: usize = 4 * 1024;
    let actual = std::mem::size_of::<
        AtmosBridge<CorePcmFrame<f32>, Box<PcmPushResult<f32, f32, ()>>, Box<u64>>,
    >();
    assert!(
        actual <= BUDGET,
        "AtmosBridge grew to {actual} bytes (budget {BUDGET})"
    );
}

#[test]
fn a_reset_forgets_the_extension_state() {
    let mut bridge: AtmosBridge<u32, u32, u32> = AtmosBridge::new(false, MAX_BLOCK);
    bridge.dts_x.last_metadata = Some(7);
    bridge.dts_x.feed_dropouts = 5;
    bridge.dts_x.estimation_noted = true;
    bridge.dts_x.emitted_positions[2] = Some(SphericalPosition {
        azimuth_half_degrees: 1,
        elevation_half_degrees: 2,
        distance_64ths: 64,
    });
    bridge.truehd_frames_decoded(3);
    bridge.reset_pipeline();
    assert_eq!(bridge.dts_x.last_metadata, None);
    assert_eq!(bridge.dts_x.feed_dropouts, 0);
    assert!(!bridge.dts_x.estimation_noted);
    assert_eq!(bridge.dts_x.emitted_positions, [None; 8]);
    assert_eq!(bridge.frame_count, 3);
    bridge.eac3_active = true;
    assert!(!bridge.has_objects());
    bridge.joc_frame_decoded();
    assert!(bridge.has_objects());
}

/// A frame that is told by its number.
fn numbered(number: u32) -> DecodedFrame {
    DecodedFrame {
        sampling_frequency: number,
        sample_count: 0,
        channel_count: 0,
        pcm: Vec::new().into(),
        channel_labels: vec![],
        metadata: vec![],
        drc_ramp_duration: 0,
        dialogue_level: None,
        is_new_segment: false,
    }
}

/// What the decoders make of a unit: a legacy core, an independent core, a
/// complete frame, and whether frames are valid and stand in for missing audio.
struct Decoded {
    legacy: Result<u32, String>,
    independent: Result<u32, String>,
    whole: Result<u32, String>,
    group_fails: bool,
    judged: (bool, bool),
}

fn decoded() -> Decoded {
    Decoded {
        legacy: Err("no legacy".to_string()),
        independent: Err("no core".to_string()),
        whole: Err("no frame".to_string()),
        group_fails: false,
        judged: (true, false),
    }
}

/// Processes a unit. A core on its own gives a frame of its number, a group one
/// of its core's number, a hundred for each dependent and a thousand with JOC.
fn process(
    bridge: &mut Bridge,
    unit: &[u8],
    kind: Eac3UnitKind,
    decoded: Decoded,
    silence: &mut bool,
    result: &mut PushResult,
) -> bool {
    let number = |core: PendingEac3Core<u32, u32>| match core {
        PendingEac3Core::LegacyAc3 { core, access_unit } => core + access_unit.len() as u32,
        PendingEac3Core::Independent(push) => push,
    };
    let group_fails = decoded.group_fails;
    let stopped = bridge.process_eac3_access_unit(
        unit,
        kind,
        (
            |core| numbered(number(core)),
            |core, dependents: Vec<Vec<u8>>, joc| {
                if group_fails {
                    return Err("no group".to_string());
                }
                let joc = if joc { 1000 } else { 0 };
                Ok(numbered(number(core) + 100 * dependents.len() as u32 + joc))
            },
        ),
        (
            |_: &[u8]| decoded.legacy,
            |_: &[u8]| decoded.independent,
            |_: &[u8]| decoded.whole.map(numbered),
            |_: &DecodedFrame| decoded.judged,
        ),
        silence,
        result,
    );
    stopped.is_none()
}

fn numbers(result: &PushResult) -> Vec<u32> {
    result
        .frames
        .iter()
        .map(|frame| frame.sampling_frequency)
        .collect()
}

#[test]
fn every_presentation_gives_one_frame() {
    let mut bridge = bridge(false);
    let mut result = PushResult::new();
    let mut silence = false;
    let mut go = |kind, decoded| {
        assert!(process(&mut bridge, &[7], kind, decoded, &mut silence, &mut result));
        let held = bridge.pending_eac3_core.is_some() as usize;
        (numbers(&result), held)
    };
    let core = kind(false, false, false, true);
    let independent = |push| Decoded {
        independent: Ok(push),
        ..decoded()
    };
    let plain = kind(true, false, false, false);
    let joc = kind(true, true, false, false);
    assert_eq!(go(core, independent(1)), (vec![], 1));
    // A core on its own goes out when the next one shows that it is.
    assert_eq!(go(core, independent(2)), (vec![1], 1));
    assert_eq!(go(plain, decoded()), (vec![1], 1));
    assert_eq!(go(plain, decoded()), (vec![1], 1));
    // A group with JOC goes out at once.
    assert_eq!(go(joc, decoded()), (vec![1, 1302], 0));
    // A dependent behind it belongs to nothing.
    assert_eq!(go(plain, decoded()), (vec![1, 1302], 0));
    let legacy = Decoded {
        legacy: Ok(3),
        ..decoded()
    };
    assert_eq!(go(kind(false, false, true, false), legacy), (vec![1, 1302], 1));
    assert_eq!(go(plain, decoded()), (vec![1, 1302], 1));
    // A complete frame goes out behind the group that it ends.
    let whole = Decoded {
        whole: Ok(5),
        ..decoded()
    };
    let both = kind(false, true, false, true);
    assert_eq!(go(both, whole), (vec![1, 1302, 104, 5], 0));
    // A legacy core that cannot be decoded is tried as a frame.
    let again = Decoded {
        whole: Ok(6),
        ..decoded()
    };
    let odd = kind(false, false, true, false);
    assert_eq!(go(odd, again), (vec![1, 1302, 104, 5, 6], 0));
    assert_eq!(bridge.eac3_frame_count, 10);
    assert_eq!(bridge.eac3_diag_stats.dependent_frames_dropped, 1);
    assert_eq!(bridge.eac3_diag_stats.dependent_pair_attempts, 2);
    assert_eq!(bridge.eac3_diag_stats.ac3_core_decoded, 1);
    assert_eq!(bridge.eac3_diag_stats.ac3_core_decode_failures, 1);
    assert_eq!(
        bridge.eac3_diag_stats.last_ac3_core_decode_error.as_deref(),
        Some("no legacy")
    );
}

#[test]
fn frames_are_dropped_only_as_they_are_judged() {
    let mut bridge = bridge(false);
    let mut result = PushResult::new();
    let mut silence = false;
    let whole = kind(false, true, false, false);
    for (number, judged) in [
        (1, (true, false)),
        (2, (false, false)),
        (3, (false, true)),
        (4, (true, true)),
        (5, (true, true)),
        (6, (true, false)),
    ] {
        let found = Decoded {
            whole: Ok(number),
            judged,
            ..decoded()
        };
        assert!(process(&mut bridge, &[0], whole, found, &mut silence, &mut result));
    }
    assert_eq!(numbers(&result), vec![1, 4, 6]);
    assert!(silence);
}

#[test]
fn a_unit_that_cannot_be_decoded_starts_the_pipeline_over() {
    let core = kind(false, false, false, true);
    let whole = kind(false, true, false, true);
    let joc = kind(true, true, false, false);
    for (unit, group_fails, frames, message) in [
        (core, false, vec![1], "E-AC3 core decode error: no core"),
        (whole, false, vec![1], "no frame"),
        (joc, true, vec![], "no group"),
    ] {
        let mut bridge = bridge(false);
        let mut result = PushResult::new();
        let mut silence = false;
        bridge.independent_core_decoded(1);
        let found = Decoded {
            group_fails,
            ..decoded()
        };
        assert!(!process(&mut bridge, &[0], unit, found, &mut silence, &mut result));
        assert_eq!(numbers(&result), frames);
        assert_eq!(result.error_message, message);
        assert!(result.did_reset);
        assert!(bridge.pending_eac3_core.is_none());
        assert_eq!(bridge.eac3_frame_count, 0);
        assert_eq!(
            bridge.eac3_diag_stats.dependent_pair_failures,
            group_fails as u64
        );
    }
}
