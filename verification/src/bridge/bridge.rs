//! Bridge state: codec selection, packet routing, failure policy and the
//! assembly of E-AC-3 presentations.
//!
//! The decoders themselves stand around this state. It says what each packet
//! and access unit asks of them and takes up what they gave.

use crate::bridge::auro_stage::DtsAuroState;
use crate::bridge::codec::{
    sniff_raw_codec, sniffed, DrcMode, DtsProfile, RawCodec,
};
use crate::bridge::dts_frame::DtsXState;
use crate::bridge::frame::{DecodedFrame, ObjectChannel};
use crate::bridge::labels::RChannelLabel;
use crate::text::{hex, hex_text, number_below, parse_byte, same_text};
use crate::level::Level;
use vstd::prelude::*;
use vstd::string::StringExecFns;

verus! {

/// Number of TrueHD presentations; the last one carries objects.
pub const MAX_PRESENTATIONS: u8 = 4;

/// At most eight dependent substreams stand behind one independent. More than
/// that is a malformed group, not a longer one.
pub const MAX_EAC3_DEPENDENTS: usize = 8;

/// IEC 61937 data type of TrueHD.
pub const TRUEHD_DATA_TYPE: u8 = 0x16;

/// IEC 61937 data type of E-AC-3.
pub const EAC3_DATA_TYPE: u8 = 0x15;

/// IEC 61937 data type of DTS type IV, which wraps the frame.
pub const DTSHD_DATA_TYPE: u8 = 0x11;

/// Counts of what the E-AC-3 pipeline met.
#[derive(Debug)]
pub struct Eac3DiagStats {
    pub joc_frames: u64,
    pub ac3_core_decoded: u64,
    pub ac3_core_decode_failures: u64,
    pub dependent_pair_attempts: u64,
    pub dependent_pair_failures: u64,
    /// Dependent frames that belonged to no presentation.
    pub dependent_frames_dropped: u64,
    pub last_ac3_core_decode_error: Option<String>,
    pub last_dependent_pair_error: Option<String>,
}

/// The core of a presentation, held until its dependents have arrived or the
/// next access unit ends the presentation without one. `C` is a decoded AC-3
/// core and `P` a decoded independent frame.
#[derive(Debug)]
pub enum PendingEac3Core<C, P> {
    /// A legacy AC-3 core, which carries no JOC. The access unit is kept so
    /// that its DRC and dialogue level can be recovered.
    LegacyAc3 { core: C, access_unit: Vec<u8> },
    /// An independent E-AC-3 frame without a JOC payload of its own.
    Independent(P),
}

/// A presentation being assembled: the core, and the dependents that have
/// attached themselves to it so far.
#[derive(Debug)]
pub struct PendingEac3Presentation<C, P> {
    pub core: PendingEac3Core<C, P>,
    pub dependents: Vec<Vec<u8>>,
    /// Whether the last dependent carries a JOC payload.
    pub last_carries_joc: bool,
}

/// What an access unit is, as its header shows.
#[derive(Debug, Clone, Copy, PartialEq, Eq, Structural)]
pub struct Eac3UnitKind {
    /// A dependent substream.
    pub dependent: bool,
    /// It carries a JOC payload.
    pub carries_joc: bool,
    /// A legacy AC-3 frame.
    pub legacy: bool,
    /// Dependents may follow it.
    pub can_carry_dependents: bool,
}

/// What an access unit asks for.
#[derive(Debug, Clone, Copy, PartialEq, Eq, Structural)]
pub enum Eac3Step {
    /// Nothing: the unit was taken up or dropped.
    Nothing,
    /// The presentation in hand is complete; resolve it.
    Resolve,
    /// Resolve the presentation in hand, then decode this unit.
    ResolveAndDecode,
}

/// How a unit that is no dependent is decoded.
#[derive(Debug, Clone, Copy, PartialEq, Eq, Structural)]
pub enum Eac3Decode {
    /// As a legacy AC-3 core, to be held.
    Legacy,
    /// As an independent core, to be held until the next unit shows whether a
    /// dependent follows.
    Core,
    /// As a complete presentation.
    Whole,
}

/// What resolving a presentation comes to.
#[derive(Debug)]
pub enum Resolution<C, P> {
    /// No presentation was in hand.
    Empty,
    /// The core stands on its own. The object decoder is told that a
    /// presentation went by without JOC.
    Standalone(PendingEac3Core<C, P>),
    /// The dependents are merged onto the core in order. With `joc` the last
    /// of them rebuilds objects from the merged bed; without it the object
    /// decoder is told that a presentation went by without JOC.
    Group { core: PendingEac3Core<C, P>, dependents: Vec<Vec<u8>>, joc: bool },
}

/// What a packet led to.
#[derive(Debug)]
pub struct PushResult {
    pub frames: Vec<DecodedFrame>,
    pub error_message: String,
    pub did_reset: bool,
}

impl PushResult {
    /// The result of a packet that has not been dealt with yet.
    pub fn new() -> (result: Self)
        ensures
            result.frames@.len() == 0,
            result.error_message@.len() == 0,
            !result.did_reset,
    {
        PushResult { frames: Vec::new(), error_message: String::new(), did_reset: false }
    }
}

/// Where a packet goes.
#[derive(Debug, Clone, Copy, PartialEq, Eq, Structural)]
pub enum PacketRoute {
    /// The TrueHD extractor, directly.
    TrueHdRaw,
    /// The MAT unpacker in front of the TrueHD extractor.
    TrueHdMat,
    /// The raw E-AC-3 extractor.
    Eac3Raw,
    /// The E-AC-3 burst unpacker.
    Eac3Spdif,
    /// The DTS buffer.
    Dts,
    /// The DTS buffer, unwrapped first.
    DtsHd,
    /// Nowhere.
    Unsupported,
}

/// How a packet arrived.
#[derive(Debug, Clone, Copy, PartialEq, Eq, Structural)]
pub enum InputTransport {
    Raw,
    Iec61937,
}

/// What fresh decoders are set to.
#[derive(Debug, Clone, Copy, PartialEq, Eq, Structural)]
pub struct DecoderSettings {
    pub fail_level: Level,
    pub presentation: u8,
}

/// Bridge state, but for the decoders.
#[derive(Debug)]
pub struct AtmosBridge<C, P, M> {
    /// The core of a presentation whose dependents may still follow. A
    /// dependent belongs to the unit it immediately follows, so at most one
    /// core is outstanding.
    pub pending_eac3_core: Option<PendingEac3Presentation<C, P>>,
    pub eac3_frame_count: u64,
    /// The most recent packet that has a path used the E-AC-3 path.
    pub eac3_active: bool,
    /// Codec that the host declared for raw packets. Kept across resets.
    pub forced_raw_codec: Option<RawCodec>,
    /// Codec locked for the current raw session.
    pub raw_codec: Option<RawCodec>,
    pub eac3_diag_stats: Eac3DiagStats,
    /// Bytes of DTS frames that are not complete yet.
    pub dts_buf: Vec<u8>,
    pub dts_frame_count: u64,
    /// The most recent packet that has a path used the DTS path.
    pub dts_active: bool,
    /// The latest DTS frame carried objects.
    pub dts_objects_active: bool,
    /// The latest DTS frame names its surrounds on the side.
    pub dts_surrounds_on_side: bool,
    pub dts_profile: DtsProfile,
    pub dts_x: DtsXState<M>,
    pub dts_auro: DtsAuroState,
    pub presentation: u8,
    pub strict: bool,
    /// Decoded samples since the start, for timestamps.
    pub total_samples: u64,
    pub recovering_until_major_sync: bool,
    pub drc_mode: DrcMode,
    pub frame_count: u64,
    /// Last declaration of object channels that was emitted.
    pub declared_object_channels: Option<Vec<ObjectChannel>>,
    /// Labels of the active TrueHD spatial presentation.
    pub truehd_spatial_labels: Option<Vec<RChannelLabel>>,
}

/// The level from which findings stop a decoder.
pub open spec fn fail_level_for(strict: bool) -> Level {
    if strict {
        Level::Warn
    } else {
        Level::Error
    }
}

/// The codec that a raw packet is taken as: the locked one, else the declared
/// one, else the one whose sync word it shows, else TrueHD.
pub open spec fn resolved_codec(
    locked: Option<RawCodec>,
    forced: Option<RawCodec>,
    data: Seq<u8>,
) -> RawCodec {
    match locked_codec(locked, forced, data) {
        Some(codec) => codec,
        None => RawCodec::TrueHd,
    }
}

/// The codec that is locked after a raw packet: an unrecognised one locks
/// nothing.
pub open spec fn locked_codec(
    locked: Option<RawCodec>,
    forced: Option<RawCodec>,
    data: Seq<u8>,
) -> Option<RawCodec> {
    if locked is Some {
        locked
    } else if forced is Some {
        forced
    } else {
        sniffed(data)
    }
}

/// The codec that a configuration value names: `None` is a value that names
/// none, `Some(None)` the automatic choice.
pub open spec fn codec_named(value: Seq<char>) -> Option<Option<RawCodec>> {
    if value == "eac3"@ || value == "ec3"@ || value == "e-ac3"@ || value == "ac3"@ {
        Some(Some(RawCodec::Eac3))
    } else if value == "truehd"@ || value == "mlp"@ {
        Some(Some(RawCodec::TrueHd))
    } else if value == "dts"@ || value == "dca"@ || value == "dtsx"@ || value == "dts:x"@ || value
        == "dts-hd"@ || value == "dtshd"@ {
        Some(Some(RawCodec::Dts))
    } else if value == "auto"@ || value == ""@ {
        Some(None)
    } else {
        None
    }
}

/// The presentation that a configuration value names.
pub open spec fn presentation_named(value: Seq<char>) -> Option<int> {
    if value == "best"@ {
        Some(MAX_PRESENTATIONS - 1)
    } else {
        number_below(value, MAX_PRESENTATIONS as int)
    }
}

/// The DRC mode that a host names.
pub open spec fn drc_named(mode: Seq<char>) -> Option<DrcMode> {
    if mode == "Off"@ {
        Some(DrcMode::Off)
    } else if mode == "Standard"@ || mode == "Line"@ || mode == "standard/line"@ {
        Some(DrcMode::Standard)
    } else if mode == "Heavy"@ || mode == "RF"@ || mode == "heavy/RF"@ {
        Some(DrcMode::Heavy)
    } else {
        None
    }
}

/// Where a packet goes: by the codec of a raw one, by the data type of another.
pub open spec fn packet_route(
    transport: InputTransport,
    codec: RawCodec,
    data_type: u8,
) -> PacketRoute {
    match transport {
        InputTransport::Raw => match codec {
            RawCodec::TrueHd => PacketRoute::TrueHdRaw,
            RawCodec::Eac3 => PacketRoute::Eac3Raw,
            RawCodec::Dts => PacketRoute::Dts,
        },
        InputTransport::Iec61937 => if data_type == TRUEHD_DATA_TYPE {
            PacketRoute::TrueHdMat
        } else if data_type == EAC3_DATA_TYPE {
            PacketRoute::Eac3Spdif
        } else if data_type == DTSHD_DATA_TYPE {
            PacketRoute::DtsHd
        } else if data_type == 0x0B || data_type == 0x0C || data_type == 0x0D {
            PacketRoute::Dts
        } else {
            PacketRoute::Unsupported
        },
    }
}

/// Whether the E-AC-3 path is active once a packet has gone this way.
pub open spec fn eac3_active_after(before: bool, route: PacketRoute) -> bool {
    match route {
        PacketRoute::Eac3Raw | PacketRoute::Eac3Spdif => true,
        PacketRoute::Unsupported => before,
        _ => false,
    }
}

/// Whether the DTS path is active once a packet has gone this way.
pub open spec fn dts_active_after(before: bool, route: PacketRoute) -> bool {
    match route {
        PacketRoute::Dts | PacketRoute::DtsHd => true,
        PacketRoute::Unsupported => before,
        _ => false,
    }
}

/// The message for a data type that has no path.
pub open spec fn unsupported_message(data_type: u8) -> Seq<char> {
    "Unsupported IEC 61937 data type for this bridge: 0x"@ + hex_text(data_type)
}

/// A packet was taken in: where it goes, which path is active and what is said.
pub open spec fn packet_taken<C, P, M>(
    before: AtmosBridge<C, P, M>,
    after: AtmosBridge<C, P, M>,
    data: Seq<u8>,
    transport: InputTransport,
    data_type: u8,
    route: PacketRoute,
    result_before: PushResult,
    result_after: PushResult,
) -> bool {
    let failed = route is Unsupported && before.strict;
    &&& route == packet_route(
        transport,
        resolved_codec(before.raw_codec, before.forced_raw_codec, data),
        data_type,
    )
    &&& result_after.frames == result_before.frames
    &&& result_after.did_reset == (result_before.did_reset || failed)
    &&& result_after.error_message@ == if failed {
        unsupported_message(data_type)
    } else {
        result_before.error_message@
    }
    &&& if failed {
        after.session_is_fresh() && after.keeps_choices_of(&before)
    } else {
        after == (AtmosBridge {
            raw_codec: match transport {
                InputTransport::Raw => locked_codec(
                    before.raw_codec,
                    before.forced_raw_codec,
                    data,
                ),
                InputTransport::Iec61937 => before.raw_codec,
            },
            eac3_active: eac3_active_after(before.eac3_active, route),
            dts_active: dts_active_after(before.dts_active, route),
            ..before
        })
    }
}

/// A setting was given: whether it is known, and what it changes.
pub open spec fn setting_taken<C, P, M>(
    before: AtmosBridge<C, P, M>,
    after: AtmosBridge<C, P, M>,
    key: Seq<char>,
    value: Seq<char>,
    accepted: bool,
) -> bool {
    if key == "presentation"@ {
        &&& accepted == presentation_named(value) is Some
        &&& after == (AtmosBridge {
            presentation: match presentation_named(value) {
                Some(presentation) => presentation as u8,
                None => before.presentation,
            },
            ..before
        })
    } else if key == "input_codec"@ {
        &&& accepted == codec_named(value) is Some
        &&& after == match codec_named(value) {
            Some(codec) => AtmosBridge { forced_raw_codec: codec, raw_codec: None, ..before },
            None => before,
        }
    } else {
        &&& !accepted
        &&& after == before
    }
}

/// A bridge that has counted a frame with a JOC payload.
pub open spec fn joc_frame_counted<C, P, M>(before: AtmosBridge<C, P, M>) -> AtmosBridge<C, P, M> {
    AtmosBridge {
        eac3_diag_stats: Eac3DiagStats {
            joc_frames: (before.eac3_diag_stats.joc_frames + 1) as u64,
            ..before.eac3_diag_stats
        },
        ..before
    }
}

/// A bridge that has counted `count` TrueHD frames.
pub open spec fn truehd_frames_counted<C, P, M>(
    before: AtmosBridge<C, P, M>,
    count: int,
) -> AtmosBridge<C, P, M> {
    AtmosBridge { frame_count: (before.frame_count + count) as u64, ..before }
}

/// Whether the TrueHD parser has to keep presentation `index` up, where
/// `played` is played.
pub open spec fn is_required(played: u8, index: int) -> bool {
    index <= played
}

/// Whether a frame has been decoded since the last reset.
pub open spec fn has_decoded<C, P, M>(bridge: AtmosBridge<C, P, M>) -> bool {
    bridge.frame_count > 0 || bridge.eac3_frame_count > 0 || bridge.dts_frame_count > 0
}

/// The DRC modes that a host can choose from.
pub open spec fn drc_choice(index: int) -> Seq<char> {
    if index == 0 {
        "Off"@
    } else if index == 1 {
        "standard/line"@
    } else {
        "heavy/RF"@
    }
}

/// A DRC mode was given: whether it is known, and what it changes.
pub open spec fn drc_taken<C, P, M>(
    before: AtmosBridge<C, P, M>,
    after: AtmosBridge<C, P, M>,
    mode: Seq<char>,
    accepted: bool,
) -> bool {
    &&& accepted == drc_named(mode) is Some
    &&& after == (AtmosBridge {
        drc_mode: match drc_named(mode) {
            Some(drc_mode) => drc_mode,
            None => before.drc_mode,
        },
        ..before
    })
}

/// A payload was appended to the DTS buffer.
pub open spec fn dts_buffered<C, P, M>(
    before: AtmosBridge<C, P, M>,
    after: AtmosBridge<C, P, M>,
    payload: Seq<u8>,
) -> bool {
    &&& after.dts_buf@ == before.dts_buf@ + payload
    &&& after == (AtmosBridge { dts_buf: after.dts_buf, ..before })
}

/// Whether the stream carries objects.
pub open spec fn carries_objects<C, P, M>(bridge: AtmosBridge<C, P, M>) -> bool {
    if bridge.dts_active {
        bridge.dts_objects_active
    } else if bridge.eac3_active {
        bridge.eac3_diag_stats.joc_frames > 0
    } else {
        bridge.presentation >= MAX_PRESENTATIONS - 1
    }
}

/// Whether a dependent attaches itself to the presentation in hand.
pub open spec fn attaches<C, P>(pending: Option<PendingEac3Presentation<C, P>>) -> bool {
    pending matches Some(group) && group.dependents@.len() < MAX_EAC3_DEPENDENTS
}

/// How a unit that is no dependent is decoded; `legacy_failed` says that it was
/// tried as a legacy core.
pub open spec fn decode_for(kind: Eac3UnitKind, legacy_failed: bool) -> Eac3Decode {
    if kind.legacy && !legacy_failed {
        Eac3Decode::Legacy
    } else if kind.can_carry_dependents && !kind.carries_joc {
        Eac3Decode::Core
    } else {
        Eac3Decode::Whole
    }
}

/// What an access unit does before anything is decoded. It is counted. A
/// dependent attaches itself to the presentation in hand while there is room,
/// and is dropped otherwise; `step` is what the unit asks for then.
pub open spec fn unit_begun<C, P, M>(
    before: AtmosBridge<C, P, M>,
    after: AtmosBridge<C, P, M>,
    unit: Seq<u8>,
    kind: Eac3UnitKind,
    step: Eac3Step,
) -> bool {
    &&& step == if !kind.dependent {
        Eac3Step::ResolveAndDecode
    } else if before.pending_eac3_core is None {
        Eac3Step::Nothing
    } else if !attaches(before.pending_eac3_core) || kind.carries_joc {
        Eac3Step::Resolve
    } else {
        Eac3Step::Nothing
    }
    &&& after == (AtmosBridge {
        pending_eac3_core: after.pending_eac3_core,
        eac3_frame_count: (before.eac3_frame_count + 1) as u64,
        eac3_diag_stats: Eac3DiagStats {
            dependent_frames_dropped: if kind.dependent && !attaches(before.pending_eac3_core) {
                (before.eac3_diag_stats.dependent_frames_dropped + 1) as u64
            } else {
                before.eac3_diag_stats.dependent_frames_dropped
            },
            ..before.eac3_diag_stats
        },
        ..before
    })
    &&& if kind.dependent && attaches(before.pending_eac3_core) {
        let group = before.pending_eac3_core->0;
        &&& after.pending_eac3_core matches Some(grown)
        &&& grown.core == group.core
        &&& grown.dependents@.len() == group.dependents@.len() + 1
        &&& grown.dependents@.drop_last() == group.dependents@
        &&& grown.dependents@.last()@ == unit
        &&& grown.last_carries_joc == kind.carries_joc
    } else {
        after.pending_eac3_core == before.pending_eac3_core
    }
}

/// The presentation in hand was taken out to be resolved.
pub open spec fn presentation_taken<C, P, M>(
    before: AtmosBridge<C, P, M>,
    after: AtmosBridge<C, P, M>,
    resolution: Resolution<C, P>,
) -> bool {
    &&& after == (AtmosBridge {
        pending_eac3_core: None,
        eac3_diag_stats: Eac3DiagStats {
            dependent_pair_attempts: if resolution is Group {
                (before.eac3_diag_stats.dependent_pair_attempts + 1) as u64
            } else {
                before.eac3_diag_stats.dependent_pair_attempts
            },
            ..before.eac3_diag_stats
        },
        ..before
    })
    &&& match before.pending_eac3_core {
        None => resolution is Empty,
        Some(group) => if group.dependents@.len() == 0 {
            resolution == Resolution::Standalone(group.core)
        } else {
            resolution == (Resolution::Group {
                core: group.core,
                dependents: group.dependents,
                joc: group.last_carries_joc,
            })
        },
    }
}

/// The pipeline started over and said why.
pub open spec fn restarted<C, P, M>(
    before: AtmosBridge<C, P, M>,
    after: AtmosBridge<C, P, M>,
    message: Seq<char>,
    result_before: PushResult,
    result_after: PushResult,
    settings: DecoderSettings,
) -> bool {
    &&& after.session_is_fresh()
    &&& after.keeps_choices_of(&before)
    &&& result_after.frames == result_before.frames
    &&& result_after.did_reset
    &&& result_after.error_message@ == message
    &&& settings == (DecoderSettings {
        fail_level: fail_level_for(before.strict),
        presentation: before.presentation,
    })
}

/// The MAT unpacker failed: the pipeline started over, and a strict bridge said
/// why.
pub open spec fn mat_stopped<C, P, M>(
    before: AtmosBridge<C, P, M>,
    after: AtmosBridge<C, P, M>,
    message: Seq<char>,
    result_before: PushResult,
    result_after: PushResult,
    settings: DecoderSettings,
) -> bool {
    &&& after.session_is_fresh()
    &&& after.keeps_choices_of(&before)
    &&& result_after.frames == result_before.frames
    &&& result_after.did_reset
    &&& result_after.error_message@ == if before.strict {
        message
    } else {
        result_before.error_message@
    }
    &&& settings == (DecoderSettings {
        fail_level: fail_level_for(before.strict),
        presentation: before.presentation,
    })
}

/// A DTS decoder failed: a strict bridge started over and said why, another one
/// goes on.
pub open spec fn dts_stopped<C, P, M>(
    before: AtmosBridge<C, P, M>,
    after: AtmosBridge<C, P, M>,
    message: Seq<char>,
    result_before: PushResult,
    result_after: PushResult,
    stopped: Option<DecoderSettings>,
) -> bool {
    if before.strict {
        &&& stopped matches Some(settings)
        &&& restarted(before, after, message, result_before, result_after, settings)
    } else {
        &&& after == before
        &&& result_after == result_before
        &&& stopped is None
    }
}

/// A bridge that has counted a group that could not be resolved.
pub open spec fn group_failure_counted<C, P, M>(
    before: AtmosBridge<C, P, M>,
    message: String,
) -> AtmosBridge<C, P, M> {
    AtmosBridge {
        eac3_diag_stats: Eac3DiagStats {
            dependent_pair_failures: (before.eac3_diag_stats.dependent_pair_failures + 1) as u64,
            last_dependent_pair_error: Some(message),
            ..before.eac3_diag_stats
        },
        ..before
    }
}

/// A bridge that has counted a legacy core that could not be decoded.
pub open spec fn legacy_failure_counted<C, P, M>(
    before: AtmosBridge<C, P, M>,
    error: String,
) -> AtmosBridge<C, P, M> {
    AtmosBridge {
        eac3_diag_stats: Eac3DiagStats {
            ac3_core_decode_failures: (before.eac3_diag_stats.ac3_core_decode_failures
                + 1) as u64,
            last_ac3_core_decode_error: Some(error),
            ..before.eac3_diag_stats
        },
        ..before
    }
}

/// A legacy core is held for its dependents, with its access unit.
pub open spec fn legacy_held<C, P, M>(
    before: AtmosBridge<C, P, M>,
    after: AtmosBridge<C, P, M>,
    core: C,
    unit: Seq<u8>,
) -> bool {
    &&& after == (AtmosBridge {
        pending_eac3_core: after.pending_eac3_core,
        eac3_diag_stats: Eac3DiagStats {
            ac3_core_decoded: (before.eac3_diag_stats.ac3_core_decoded + 1) as u64,
            ..before.eac3_diag_stats
        },
        ..before
    })
    &&& after.pending_eac3_core matches Some(pending) && {
        &&& pending.core matches PendingEac3Core::LegacyAc3 { core: held, access_unit }
        &&& held == core
        &&& access_unit@ == unit
        &&& pending.dependents@.len() == 0
        &&& !pending.last_carries_joc
    }
}

/// An independent core is held until the next unit.
pub open spec fn independent_held<C, P, M>(
    before: AtmosBridge<C, P, M>,
    after: AtmosBridge<C, P, M>,
    push: P,
) -> bool {
    &&& after == (AtmosBridge { pending_eac3_core: after.pending_eac3_core, ..before })
    &&& after.pending_eac3_core matches Some(pending) && {
        &&& pending.core == PendingEac3Core::<C, P>::Independent(push)
        &&& pending.dependents@.len() == 0
        &&& !pending.last_carries_joc
    }
}

/// What became of a decoded frame: an invalid one is dropped, and of the frames
/// that stand in for missing audio only the first of a packet goes out.
pub open spec fn frame_emitted(
    frame: DecodedFrame,
    valid: bool,
    temporary_silence: bool,
    silence_before: bool,
    silence_after: bool,
    result_before: PushResult,
    result_after: PushResult,
) -> bool {
    &&& result_after.frames@ == if valid && !(temporary_silence && silence_before) {
        result_before.frames@.push(frame)
    } else {
        result_before.frames@
    }
    &&& silence_after == (silence_before || valid && temporary_silence)
    &&& result_after.error_message == result_before.error_message
    &&& result_after.did_reset == result_before.did_reset
}

/// A copy of an access unit.
fn copied_bytes(bytes: &[u8]) -> (copy: Vec<u8>)
    ensures
        copy@ == bytes@,
{
    let mut copy: Vec<u8> = Vec::new();
    append_bytes(&mut copy, bytes);
    assert(copy@ =~= bytes@);
    copy
}

/// Appends bytes to a buffer.
fn append_bytes(buffer: &mut Vec<u8>, bytes: &[u8])
    ensures
        final(buffer)@ == old(buffer)@ + bytes@,
{
    let mut index: usize = 0;
    assert(buffer@ =~= old(buffer)@ + bytes@.take(0));
    while index < bytes.len()
        invariant
            index <= bytes@.len(),
            buffer@ == old(buffer)@ + bytes@.take(index as int),
        decreases bytes.len() - index,
    {
        buffer.push(bytes[index]);
        assert(buffer@ =~= old(buffer)@ + bytes@.take(index + 1));
        index = index + 1;
    }
    assert(bytes@.take(index as int) =~= bytes@);
}

impl<C, P, M> AtmosBridge<C, P, M> {
    /// The presentation is in range, at most one of two paths is active, and
    /// the group in hand is no larger than a group can be.
    pub open spec fn wf(&self) -> bool {
        &&& self.presentation < MAX_PRESENTATIONS
        &&& !(self.eac3_active && self.dts_active)
        &&& self.dts_auro.wf()
        &&& self.pending_eac3_core matches Some(group) ==> {
            &&& group.dependents@.len() <= MAX_EAC3_DEPENDENTS
            &&& group.last_carries_joc ==> group.dependents@.len() > 0
        }
    }

    /// What a reset forgets.
    pub open spec fn session_is_fresh(&self) -> bool {
        &&& self.pending_eac3_core is None
        &&& self.eac3_frame_count == 0
        &&& !self.eac3_active
        &&& self.raw_codec is None
        &&& self.dts_buf@.len() == 0
        &&& self.dts_frame_count == 0
        &&& !self.dts_active
        &&& !self.dts_objects_active
        &&& self.dts_x.is_fresh()
        &&& crate::bridge::auro_stage::is_fresh(self.dts_auro.phase)
        &&& self.declared_object_channels is None
        &&& self.truehd_spatial_labels is None
        &&& !self.recovering_until_major_sync
    }

    /// What a reset keeps: the host's choices, the position in the stream and
    /// the counts.
    pub open spec fn keeps_choices_of(&self, other: &Self) -> bool {
        &&& self.forced_raw_codec == other.forced_raw_codec
        &&& self.presentation == other.presentation
        &&& self.strict == other.strict
        &&& self.total_samples == other.total_samples
        &&& self.drc_mode == other.drc_mode
        &&& self.frame_count == other.frame_count
        &&& self.eac3_diag_stats == other.eac3_diag_stats
        &&& self.dts_profile == other.dts_profile
        &&& self.dts_surrounds_on_side == other.dts_surrounds_on_side
        &&& self.dts_auro.max_block == other.dts_auro.max_block
    }

    /// A bridge at the start of a stream, set to the full presentation.
    pub fn new(strict: bool, max_block: usize) -> (bridge: Self)
        requires
            4 * max_block <= usize::MAX,
        ensures
            bridge.wf(),
            bridge.session_is_fresh(),
            bridge.forced_raw_codec is None,
            bridge.presentation == 3,
            bridge.strict == strict,
            bridge.total_samples == 0,
            bridge.drc_mode == DrcMode::Off,
            bridge.frame_count == 0,
            bridge.eac3_diag_stats == (Eac3DiagStats {
                joc_frames: 0,
                ac3_core_decoded: 0,
                ac3_core_decode_failures: 0,
                dependent_pair_attempts: 0,
                dependent_pair_failures: 0,
                dependent_frames_dropped: 0,
                last_ac3_core_decode_error: None,
                last_dependent_pair_error: None,
            }),
            bridge.dts_profile == DtsProfile::Core,
            !bridge.dts_surrounds_on_side,
            bridge.dts_auro.max_block == max_block,
    {
        AtmosBridge {
            pending_eac3_core: None,
            eac3_frame_count: 0,
            eac3_active: false,
            forced_raw_codec: None,
            raw_codec: None,
            eac3_diag_stats: Eac3DiagStats {
                joc_frames: 0,
                ac3_core_decoded: 0,
                ac3_core_decode_failures: 0,
                dependent_pair_attempts: 0,
                dependent_pair_failures: 0,
                dependent_frames_dropped: 0,
                last_ac3_core_decode_error: None,
                last_dependent_pair_error: None,
            },
            dts_buf: Vec::new(),
            dts_frame_count: 0,
            dts_active: false,
            dts_objects_active: false,
            dts_surrounds_on_side: false,
            dts_profile: DtsProfile::Core,
            dts_x: DtsXState::new(),
            dts_auro: DtsAuroState::new(max_block),
            presentation: 3,
            strict,
            total_samples: 0,
            recovering_until_major_sync: false,
            drc_mode: DrcMode::Off,
            frame_count: 0,
            declared_object_channels: None,
            truehd_spatial_labels: None,
        }
    }

    /// What the decoders are set to: a strict bridge stops at warnings.
    pub fn decoder_settings(&self) -> (settings: DecoderSettings)
        ensures
            settings == (DecoderSettings {
                fail_level: fail_level_for(self.strict),
                presentation: self.presentation,
            }),
    {
        DecoderSettings {
            fail_level: if self.strict {
                Level::Warn
            } else {
                Level::Error
            },
            presentation: self.presentation,
        }
    }

    /// Forgets the session, and says what the fresh decoders are set to.
    ///
    /// The total of decoded samples stays: it tracks the position for
    /// timestamps. The codec is sniffed anew, but one that the host declared
    /// stays too.
    pub fn reset_pipeline(&mut self) -> (settings: DecoderSettings)
        requires
            old(self).wf(),
        ensures
            final(self).wf(),
            final(self).session_is_fresh(),
            final(self).keeps_choices_of(old(self)),
            settings == (DecoderSettings {
                fail_level: fail_level_for(old(self).strict),
                presentation: old(self).presentation,
            }),
    {
        self.pending_eac3_core = None;
        self.eac3_frame_count = 0;
        self.eac3_active = false;
        self.dts_buf = Vec::new();
        self.dts_frame_count = 0;
        self.dts_active = false;
        self.dts_objects_active = false;
        self.dts_x = DtsXState::new();
        self.dts_auro.reset();
        self.raw_codec = None;
        self.declared_object_channels = None;
        self.truehd_spatial_labels = None;
        self.recovering_until_major_sync = false;
        self.decoder_settings()
    }

    /// Resolves the codec of a raw packet. A declared codec wins; otherwise the
    /// first recognisable sync word locks the session. An unrecognised first
    /// packet is taken as TrueHD without locking.
    pub fn resolve_raw_codec(&mut self, data: &[u8]) -> (codec: RawCodec)
        ensures
            codec == resolved_codec(old(self).raw_codec, old(self).forced_raw_codec, data@),
            *final(self) == (AtmosBridge {
                raw_codec: locked_codec(old(self).raw_codec, old(self).forced_raw_codec, data@),
                ..*old(self)
            }),
    {
        if let Some(codec) = self.raw_codec {
            return codec;
        }
        if let Some(codec) = self.forced_raw_codec {
            self.raw_codec = Some(codec);
            return codec;
        }
        if let Some(codec) = sniff_raw_codec(data) {
            self.raw_codec = Some(codec);
            return codec;
        }
        RawCodec::TrueHd
    }

    /// Takes a packet in: settles where it goes and which path is active.
    ///
    /// A data type without a path is an error of a strict bridge, which resets.
    pub fn push_packet(
        &mut self,
        data: &[u8],
        transport: InputTransport,
        data_type: u8,
        result: &mut PushResult,
    ) -> (route: PacketRoute)
        requires
            old(self).wf(),
        ensures
            final(self).wf(),
            packet_taken(
                *old(self),
                *final(self),
                data@,
                transport,
                data_type,
                route,
                *old(result),
                *final(result),
            ),
    {
        match transport {
            InputTransport::Raw => match self.resolve_raw_codec(data) {
                RawCodec::Eac3 => {
                    self.eac3_active = true;
                    self.dts_active = false;
                    PacketRoute::Eac3Raw
                },
                RawCodec::TrueHd => {
                    self.eac3_active = false;
                    self.dts_active = false;
                    PacketRoute::TrueHdRaw
                },
                RawCodec::Dts => {
                    self.eac3_active = false;
                    self.dts_active = true;
                    PacketRoute::Dts
                },
            },
            InputTransport::Iec61937 => {
                if data_type == TRUEHD_DATA_TYPE {
                    self.eac3_active = false;
                    self.dts_active = false;
                    return PacketRoute::TrueHdMat;
                }
                if data_type == EAC3_DATA_TYPE {
                    self.eac3_active = true;
                    self.dts_active = false;
                    return PacketRoute::Eac3Spdif;
                }
                if data_type == DTSHD_DATA_TYPE {
                    self.eac3_active = false;
                    self.dts_active = true;
                    return PacketRoute::DtsHd;
                }
                if data_type == 0x0B || data_type == 0x0C || data_type == 0x0D {
                    self.eac3_active = false;
                    self.dts_active = true;
                    return PacketRoute::Dts;
                }
                if self.strict {
                    let mut message: String =
                        "Unsupported IEC 61937 data type for this bridge: 0x".to_owned();
                    message.append(hex(data_type).as_str());
                    result.error_message = message;
                    self.reset_pipeline();
                    result.did_reset = true;
                }
                PacketRoute::Unsupported
            },
        }
    }

    /// A failure of the MAT unpacker: the pipeline starts over, and a strict
    /// bridge says why.
    pub fn mat_failed(&mut self, message: String, result: &mut PushResult) -> (settings:
        DecoderSettings)
        requires
            old(self).wf(),
        ensures
            final(self).wf(),
            mat_stopped(*old(self), *final(self), message@, *old(result), *final(result), settings),
    {
        let settings: DecoderSettings = self.reset_pipeline();
        result.did_reset = true;
        if self.strict {
            result.error_message = message;
        }
        settings
    }

    /// A failure of the E-AC-3 path: the pipeline starts over and says why.
    pub fn eac3_failed(&mut self, message: String, result: &mut PushResult) -> (settings:
        DecoderSettings)
        requires
            old(self).wf(),
        ensures
            final(self).wf(),
            restarted(*old(self), *final(self), message@, *old(result), *final(result), settings),
    {
        let settings: DecoderSettings = self.reset_pipeline();
        result.did_reset = true;
        result.error_message = message;
        settings
    }

    /// A failure of a DTS decoder: a strict bridge starts over and says why,
    /// which is returned as `Some`; another one goes on with the next frame.
    pub fn dts_failed(&mut self, message: String, result: &mut PushResult) -> (stopped: Option<
        DecoderSettings,
    >)
        requires
            old(self).wf(),
        ensures
            final(self).wf(),
            dts_stopped(*old(self), *final(self), message@, *old(result), *final(result), stopped),
    {
        if self.strict {
            result.error_message = message;
            let settings: DecoderSettings = self.reset_pipeline();
            result.did_reset = true;
            Some(settings)
        } else {
            None
        }
    }

    /// Takes an E-AC-3 access unit in and says what it asks for.
    ///
    /// A dependent belongs to the unit it immediately follows. Without one it
    /// is dropped; behind eight others it is dropped too, and what is in hand
    /// is resolved. The JOC payload rides in the last dependent, so one that
    /// carries it ends the group. Any other unit ends the presentation in hand.
    pub fn begin_access_unit(&mut self, unit: &[u8], kind: Eac3UnitKind) -> (step: Eac3Step)
        requires
            old(self).wf(),
            old(self).eac3_frame_count < u64::MAX,
            old(self).eac3_diag_stats.dependent_frames_dropped < u64::MAX,
        ensures
            final(self).wf(),
            unit_begun(*old(self), *final(self), unit@, kind, step),
    {
        self.eac3_frame_count = self.eac3_frame_count + 1;
        if !kind.dependent {
            return Eac3Step::ResolveAndDecode;
        }
        match &mut self.pending_eac3_core {
            None => {
                self.eac3_diag_stats.dependent_frames_dropped =
                    self.eac3_diag_stats.dependent_frames_dropped + 1;
                Eac3Step::Nothing
            },
            Some(pending) => {
                if pending.dependents.len() >= MAX_EAC3_DEPENDENTS {
                    self.eac3_diag_stats.dependent_frames_dropped =
                        self.eac3_diag_stats.dependent_frames_dropped + 1;
                    return Eac3Step::Resolve;
                }
                pending.dependents.push(copied_bytes(unit));
                pending.last_carries_joc = kind.carries_joc;
                assert(pending.dependents@.drop_last() =~= old(
                    self,
                ).pending_eac3_core->0.dependents@);
                if kind.carries_joc {
                    Eac3Step::Resolve
                } else {
                    Eac3Step::Nothing
                }
            },
        }
    }

    /// Takes the presentation in hand out, to be resolved into one frame.
    ///
    /// The last dependent decides what comes out: a JOC payload there means
    /// objects rebuilt from the merged bed, its absence the bed itself.
    pub fn resolve_pending_presentation(&mut self) -> (resolution: Resolution<C, P>)
        requires
            old(self).wf(),
            old(self).eac3_diag_stats.dependent_pair_attempts < u64::MAX,
        ensures
            final(self).wf(),
            presentation_taken(*old(self), *final(self), resolution),
    {
        match self.pending_eac3_core.take() {
            None => Resolution::Empty,
            Some(pending) => {
                let PendingEac3Presentation { core, dependents, last_carries_joc } = pending;
                if dependents.len() == 0 {
                    return Resolution::Standalone(core);
                }
                self.eac3_diag_stats.dependent_pair_attempts =
                    self.eac3_diag_stats.dependent_pair_attempts + 1;
                Resolution::Group { core, dependents, joc: last_carries_joc }
            },
        }
    }

    /// A group could not be resolved: the failure is counted, and the pipeline
    /// starts over and says why.
    pub fn finish_failed(&mut self, message: String, result: &mut PushResult) -> (settings:
        DecoderSettings)
        requires
            old(self).wf(),
            old(self).eac3_diag_stats.dependent_pair_failures < u64::MAX,
        ensures
            final(self).wf(),
            restarted(
                group_failure_counted(*old(self), message),
                *final(self),
                message@,
                *old(result),
                *final(result),
                settings,
            ),
    {
        self.eac3_diag_stats.dependent_pair_failures =
            self.eac3_diag_stats.dependent_pair_failures + 1;
        self.eac3_diag_stats.last_dependent_pair_error = Some(message.clone());
        self.eac3_failed(message, result)
    }

    /// How a unit that is no dependent is decoded. A legacy core that fails is
    /// tried again as an E-AC-3 frame.
    pub fn decode_plan(&self, kind: Eac3UnitKind, legacy_failed: bool) -> (plan: Eac3Decode)
        ensures
            plan == decode_for(kind, legacy_failed),
    {
        if kind.legacy && !legacy_failed {
            Eac3Decode::Legacy
        } else if kind.can_carry_dependents && !kind.carries_joc {
            Eac3Decode::Core
        } else {
            Eac3Decode::Whole
        }
    }

    /// A legacy core was decoded: it is held for its dependents.
    pub fn legacy_core_decoded(&mut self, core: C, unit: &[u8])
        requires
            old(self).wf(),
            old(self).eac3_diag_stats.ac3_core_decoded < u64::MAX,
        ensures
            final(self).wf(),
            legacy_held(*old(self), *final(self), core, unit@),
    {
        self.eac3_diag_stats.ac3_core_decoded = self.eac3_diag_stats.ac3_core_decoded + 1;
        self.pending_eac3_core = Some(
            PendingEac3Presentation {
                core: PendingEac3Core::LegacyAc3 { core, access_unit: copied_bytes(unit) },
                dependents: Vec::new(),
                last_carries_joc: false,
            },
        );
    }

    /// A legacy core could not be decoded.
    pub fn legacy_core_failed(&mut self, error: String)
        requires
            old(self).wf(),
            old(self).eac3_diag_stats.ac3_core_decode_failures < u64::MAX,
        ensures
            final(self).wf(),
            *final(self) == legacy_failure_counted(*old(self), error),
    {
        self.eac3_diag_stats.ac3_core_decode_failures =
            self.eac3_diag_stats.ac3_core_decode_failures + 1;
        self.eac3_diag_stats.last_ac3_core_decode_error = Some(error);
    }

    /// A frame with a JOC payload was decoded: the stream carries objects.
    pub fn joc_frame_decoded(&mut self)
        requires
            old(self).wf(),
            old(self).eac3_diag_stats.joc_frames < u64::MAX,
        ensures
            final(self).wf(),
            *final(self) == joc_frame_counted(*old(self)),
    {
        self.eac3_diag_stats.joc_frames = self.eac3_diag_stats.joc_frames + 1;
    }

    /// TrueHD frames were decoded.
    pub fn truehd_frames_decoded(&mut self, count: usize)
        requires
            old(self).wf(),
            old(self).frame_count + count <= u64::MAX,
        ensures
            final(self).wf(),
            *final(self) == truehd_frames_counted(*old(self), count as int),
    {
        self.frame_count = self.frame_count + count as u64;
    }

    /// An independent core was decoded: it is held until the next unit shows
    /// whether a dependent follows.
    pub fn independent_core_decoded(&mut self, push: P)
        requires
            old(self).wf(),
        ensures
            final(self).wf(),
            independent_held(*old(self), *final(self), push),
    {
        self.pending_eac3_core = Some(
            PendingEac3Presentation {
                core: PendingEac3Core::Independent(push),
                dependents: Vec::new(),
                last_carries_joc: false,
            },
        );
    }

    /// Emits a decoded frame: an invalid one is dropped, and of the frames that
    /// stand in for missing audio only the first of a packet goes out.
    pub fn emit_eac3_frame(
        frame: DecodedFrame,
        valid: bool,
        temporary_silence: bool,
        silence_pushed: &mut bool,
        result: &mut PushResult,
    )
        ensures
            frame_emitted(
                frame,
                valid,
                temporary_silence,
                *old(silence_pushed),
                *final(silence_pushed),
                *old(result),
                *final(result),
            ),
    {
        if !valid {
            return;
        }
        if temporary_silence {
            if *silence_pushed {
                return;
            }
            *silence_pushed = true;
        }
        result.frames.push(frame);
    }

    /// Appends a payload to the DTS buffer.
    pub fn buffer_dts(&mut self, payload: &[u8])
        requires
            old(self).wf(),
        ensures
            final(self).wf(),
            dts_buffered(*old(self), *final(self), payload@),
    {
        append_bytes(&mut self.dts_buf, payload);
    }

    /// Whether a frame has been decoded since the last reset.
    pub fn is_ready(&self) -> (ready: bool)
        ensures
            ready == has_decoded(*self),
    {
        self.frame_count > 0 || self.eac3_frame_count > 0 || self.dts_frame_count > 0
    }

    /// Whether the stream carries objects: a DTS stream when its latest frame
    /// does, an E-AC-3 stream once a JOC payload was met, a TrueHD stream when
    /// the top presentation is asked for.
    pub fn has_objects(&self) -> (objects: bool)
        ensures
            objects == carries_objects(*self),
    {
        if self.dts_active {
            return self.dts_objects_active;
        }
        if self.eac3_active {
            self.eac3_diag_stats.joc_frames > 0
        } else {
            self.presentation >= MAX_PRESENTATIONS - 1
        }
    }

    /// The presentations that the TrueHD parser has to keep up: all up to the
    /// one that is played.
    pub fn required_presentations(&self) -> (required: [bool; 4])
        ensures
            forall|index: int|
                0 <= index < 4 ==> #[trigger] required@[index] == is_required(
                    self.presentation,
                    index,
                ),
    {
        let mut required: [bool; 4] = [false; 4];
        let mut index: usize = 0;
        while index < 4
            invariant
                index <= 4,
                forall|seen: int|
                    0 <= seen < index ==> #[trigger] required@[seen] == is_required(
                        self.presentation,
                        seen,
                    ),
            decreases 4 - index,
        {
            required[index] = index <= self.presentation as usize;
            index = index + 1;
        }
        required
    }

    /// Sets the presentation or the codec of raw packets. Returns whether the
    /// key and the value are known; otherwise nothing changes.
    pub fn configure(&mut self, key: &str, value: &str) -> (accepted: bool)
        requires
            old(self).wf(),
        ensures
            final(self).wf(),
            setting_taken(*old(self), *final(self), key@, value@, accepted),
    {
        if same_text(key, "presentation") {
            let presentation: u8 = if same_text(value, "best") {
                MAX_PRESENTATIONS - 1
            } else {
                match parse_byte(value) {
                    Some(presentation) => {
                        if presentation >= MAX_PRESENTATIONS {
                            return false;
                        }
                        presentation
                    },
                    None => {
                        return false;
                    },
                }
            };
            self.presentation = presentation;
            return true;
        }
        if same_text(key, "input_codec") {
            let codec: Option<RawCodec> = if same_text(value, "eac3") || same_text(value, "ec3")
                || same_text(value, "e-ac3") || same_text(value, "ac3") {
                Some(RawCodec::Eac3)
            } else if same_text(value, "truehd") || same_text(value, "mlp") {
                Some(RawCodec::TrueHd)
            } else if same_text(value, "dts") || same_text(value, "dca") || same_text(value, "dtsx")
                || same_text(value, "dts:x") || same_text(value, "dts-hd") || same_text(
                value,
                "dtshd",
            ) {
                Some(RawCodec::Dts)
            } else if same_text(value, "auto") || same_text(value, "") {
                None
            } else {
                return false;
            };
            self.forced_raw_codec = codec;
            self.raw_codec = None;
            return true;
        }
        false
    }

    /// The DRC modes that a host can choose from.
    pub fn supported_drc_modes() -> (modes: [&'static str; 3])
        ensures
            forall|index: int| 0 <= index < 3 ==> (#[trigger] modes@[index])@ == drc_choice(index),
    {
        ["Off", "standard/line", "heavy/RF"]
    }

    /// Sets the DRC mode. Returns whether the mode is known; otherwise nothing
    /// changes.
    pub fn set_drc_mode(&mut self, mode: &str) -> (accepted: bool)
        requires
            old(self).wf(),
        ensures
            final(self).wf(),
            drc_taken(*old(self), *final(self), mode@, accepted),
    {
        let drc_mode: DrcMode = if same_text(mode, "Off") {
            DrcMode::Off
        } else if same_text(mode, "Standard") || same_text(mode, "Line") || same_text(
            mode,
            "standard/line",
        ) {
            DrcMode::Standard
        } else if same_text(mode, "Heavy") || same_text(mode, "RF") || same_text(mode, "heavy/RF") {
            DrcMode::Heavy
        } else {
            return false;
        };
        self.drc_mode = drc_mode;
        true
    }
}

/// A locked codec stays: whatever packets follow, they are taken as the codec
/// that the first recognised one locked.
pub proof fn codec_stays_locked(
    locked: Option<RawCodec>,
    forced: Option<RawCodec>,
    first: Seq<u8>,
    second: Seq<u8>,
)
    requires
        locked_codec(locked, forced, first) is Some,
    ensures
        resolved_codec(locked_codec(locked, forced, first), forced, second) == resolved_codec(
            locked,
            forced,
            first,
        ),
        locked_codec(locked_codec(locked, forced, first), forced, second) == locked_codec(
            locked,
            forced,
            first,
        ),
{
}

/// An unrecognised packet does not settle the codec: a later one with a sync
/// word still does.
pub proof fn unrecognised_packets_do_not_lock(first: Seq<u8>, second: Seq<u8>)
    requires
        sniffed(first) is None,
    ensures
        resolved_codec(None, None, first) == RawCodec::TrueHd,
        locked_codec(locked_codec(None, None, first), None, second) == sniffed(second),
{
}

/// A declared codec wins over every sync word.
pub proof fn declared_codec_wins(forced: RawCodec, data: Seq<u8>)
    ensures
        resolved_codec(None, Some(forced), data) == forced,
{
}

} // verus!
