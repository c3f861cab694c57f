//! Laws of the bridge: which path a packet takes, what a host can set, and what
//! a failure leaves.

use crate::bridge::bridge::{
    carries_objects, decode_for, drc_choice, drc_named, drc_taken, dts_buffered, dts_stopped,
    frame_emitted, group_failure_counted, has_decoded, independent_held, is_required,
    joc_frame_counted, legacy_failure_counted, legacy_held, mat_stopped, packet_taken,
    presentation_taken, restarted, setting_taken, truehd_frames_counted, unit_begun, AtmosBridge,
    DecoderSettings, Eac3Decode, Eac3Step, Eac3UnitKind, InputTransport, PacketRoute,
    PendingEac3Core, PushResult, Resolution,
};
use crate::bridge::codec::{sniffed, DrcMode, RawCodec};
use crate::bridge::frame::DecodedFrame;
use crate::level::Level;
use crate::text::number_below;
use vstd::prelude::*;

verus! {

/// The four bytes from `at` on.
pub open spec fn bytes_at(data: Seq<u8>, at: int, a: u8, b: u8, c: u8, d: u8) -> bool {
    &&& at + 4 <= data.len()
    &&& data[at] == a
    &&& data[at + 1] == b
    &&& data[at + 2] == c
    &&& data[at + 3] == d
}

/// A raw packet is told by its sync word: a TrueHD major sync behind four bytes,
/// else a DTS core or extension substream at its start, else an E-AC-3 frame in
/// either byte order. One without a sync word is told by nothing.
pub proof fn sync_words_tell_the_codec(data: Seq<u8>)
    ensures
        ({
            let truehd = bytes_at(data, 4, 0xF8, 0x72, 0x6F, 0xBA);
            let dts = bytes_at(data, 0, 0x7F, 0xFE, 0x80, 0x01) || bytes_at(
                data,
                0,
                0x64,
                0x58,
                0x20,
                0x25,
            );
            let eac3 = data.len() >= 2 && (data[0] == 0x0B && data[1] == 0x77 || data[0] == 0x77
                && data[1] == 0x0B);
            &&& sniffed(data) == Some(RawCodec::TrueHd) <==> truehd
            &&& sniffed(data) == Some(RawCodec::Dts) <==> dts && !truehd
            &&& sniffed(data) == Some(RawCodec::Eac3) <==> eac3 && !truehd && !dts
        }),
{
}

/// A raw packet goes to the path of the codec that it is taken as, and that path
/// is the active one afterwards. The codec is the one that is locked, else the
/// declared one, else the one of its sync word, which are locked from then on,
/// and else TrueHD, which is not.
pub proof fn raw_packets_take_the_path_of_their_codec<C, P, M>(
    before: AtmosBridge<C, P, M>,
    after: AtmosBridge<C, P, M>,
    data: Seq<u8>,
    data_type: u8,
    route: PacketRoute,
    result_before: PushResult,
    result_after: PushResult,
)
    requires
        packet_taken(
            before,
            after,
            data,
            InputTransport::Raw,
            data_type,
            route,
            result_before,
            result_after,
        ),
    ensures
        ({
            let told = if before.raw_codec is Some {
                before.raw_codec
            } else if before.forced_raw_codec is Some {
                before.forced_raw_codec
            } else {
                sniffed(data)
            };
            &&& after.raw_codec == told
            &&& told == Some(RawCodec::Dts) <==> route == PacketRoute::Dts
            &&& told == Some(RawCodec::Eac3) <==> route == PacketRoute::Eac3Raw
            &&& told == Some(RawCodec::TrueHd) || told is None <==> route == PacketRoute::TrueHdRaw
            &&& after.dts_active <==> told == Some(RawCodec::Dts)
            &&& after.eac3_active <==> told == Some(RawCodec::Eac3)
        }),
        result_after.did_reset == result_before.did_reset,
        result_after.error_message@ == result_before.error_message@,
        result_after.frames == result_before.frames,
        after == (AtmosBridge {
            raw_codec: after.raw_codec,
            eac3_active: after.eac3_active,
            dts_active: after.dts_active,
            ..before
        }),
{
}

/// The path of a burst is told by its data type: 0x16 is TrueHD, 0x15 is E-AC-3,
/// 0x0B to 0x0D are DTS and 0x11 is DTS in a wrapper. That path is the active one
/// afterwards, and the codec of raw packets is left alone.
pub proof fn bursts_take_the_path_of_their_type<C, P, M>(
    before: AtmosBridge<C, P, M>,
    after: AtmosBridge<C, P, M>,
    data: Seq<u8>,
    data_type: u8,
    route: PacketRoute,
    result_before: PushResult,
    result_after: PushResult,
)
    requires
        packet_taken(
            before,
            after,
            data,
            InputTransport::Iec61937,
            data_type,
            route,
            result_before,
            result_after,
        ),
    ensures
        route == PacketRoute::TrueHdMat <==> data_type == 22,
        route == PacketRoute::Eac3Spdif <==> data_type == 21,
        route == PacketRoute::DtsHd <==> data_type == 17,
        route == PacketRoute::Dts <==> 11 <= data_type <= 13,
        route == PacketRoute::Unsupported <==> data_type != 22 && data_type != 21 && data_type
            != 17 && !(11 <= data_type <= 13),
        route != PacketRoute::Unsupported ==> {
            &&& after.dts_active <==> data_type == 17 || 11 <= data_type <= 13
            &&& after.eac3_active <==> data_type == 21
            &&& after.raw_codec == before.raw_codec
            &&& result_after.did_reset == result_before.did_reset
            &&& result_after.error_message@ == result_before.error_message@
        },
        route == PacketRoute::Unsupported && !before.strict ==> after == before
            && result_after.did_reset == result_before.did_reset,
        route == PacketRoute::Unsupported && before.strict ==> {
            &&& result_after.did_reset
            &&& result_after.error_message@.len() > 0
            &&& after.session_is_fresh()
        },
        result_after.frames == result_before.frames,
{
    reveal_strlit("Unsupported IEC 61937 data type for this bridge: 0x");
}

/// Packets of one codec keep to its path: two raw packets in turn, of which the
/// first is recognised, take the same one.
pub proof fn raw_packets_keep_to_one_path<C, P, M>(
    first: AtmosBridge<C, P, M>,
    second: AtmosBridge<C, P, M>,
    third: AtmosBridge<C, P, M>,
    packets: (Seq<u8>, Seq<u8>),
    types: (u8, u8),
    routes: (PacketRoute, PacketRoute),
    results: (PushResult, PushResult, PushResult),
)
    requires
        packet_taken(
            first,
            second,
            packets.0,
            InputTransport::Raw,
            types.0,
            routes.0,
            results.0,
            results.1,
        ),
        packet_taken(
            second,
            third,
            packets.1,
            InputTransport::Raw,
            types.1,
            routes.1,
            results.1,
            results.2,
        ),
        first.raw_codec is Some || first.forced_raw_codec is Some || sniffed(packets.0) is Some,
    ensures
        routes.0 == routes.1,
        third.dts_active == second.dts_active,
        third.eac3_active == second.eac3_active,
{
}

/// A host names the codec of raw packets by one of its names, or leaves the
/// choice to the sync word; it is then told anew. Any other value is refused.
pub proof fn codecs_are_set_by_their_names<C, P, M>(
    before: AtmosBridge<C, P, M>,
    after: AtmosBridge<C, P, M>,
    value: Seq<char>,
    accepted: bool,
)
    requires
        setting_taken(before, after, "input_codec"@, value, accepted),
    ensures
        ({
            let eac3 = value == "eac3"@ || value == "ec3"@ || value == "e-ac3"@ || value
                == "ac3"@;
            let truehd = value == "truehd"@ || value == "mlp"@;
            let dts = value == "dts"@ || value == "dca"@ || value == "dtsx"@ || value == "dts:x"@
                || value == "dts-hd"@ || value == "dtshd"@;
            let automatic = value == "auto"@ || value == ""@;
            &&& accepted <==> eac3 || truehd || dts || automatic
            &&& eac3 ==> after.forced_raw_codec == Some(RawCodec::Eac3)
            &&& truehd ==> after.forced_raw_codec == Some(RawCodec::TrueHd)
            &&& dts ==> after.forced_raw_codec == Some(RawCodec::Dts)
            &&& automatic ==> after.forced_raw_codec is None
            &&& accepted ==> after.raw_codec is None && after == (AtmosBridge {
                forced_raw_codec: after.forced_raw_codec,
                raw_codec: None,
                ..before
            })
            &&& !accepted ==> after == before
        }),
{
    reveal_strlit("input_codec");
    reveal_strlit("presentation");
    assert("input_codec"@.len() != "presentation"@.len());
    reveal_strlit("eac3");
    reveal_strlit("ec3");
    reveal_strlit("e-ac3");
    reveal_strlit("ac3");
    reveal_strlit("truehd");
    reveal_strlit("mlp");
    reveal_strlit("dts");
    reveal_strlit("dca");
    reveal_strlit("dtsx");
    reveal_strlit("dts:x");
    reveal_strlit("dts-hd");
    reveal_strlit("dtshd");
    reveal_strlit("auto");
    reveal_strlit("");
    assert("e-ac3"@[1] == '-' && "dts:x"@[1] == 't');
    assert("eac3"@[0] == 'e' && "dtsx"@[0] == 'd' && "auto"@[0] == 'a');
    assert("ec3"@[0] == 'e' && "ac3"@[0] == 'a' && "mlp"@[0] == 'm' && "dts"@[0] == 'd'
        && "dca"@[0] == 'd');
    assert("truehd"@[0] == 't' && "dts-hd"@[0] == 'd');
}

/// A host names the presentation as a number below four, or the best, which is
/// the last. Any other value is refused, and so is any other setting.
pub proof fn presentations_are_set_by_number<C, P, M>(
    before: AtmosBridge<C, P, M>,
    after: AtmosBridge<C, P, M>,
    key: Seq<char>,
    value: Seq<char>,
    accepted: bool,
)
    requires
        setting_taken(before, after, key, value, accepted),
    ensures
        key == "presentation"@ && value == "best"@ ==> accepted && after.presentation == 3,
        key == "presentation"@ && value != "best"@ ==> {
            &&& accepted <==> number_below(value, 4) is Some
            &&& accepted ==> Some(after.presentation as int) == number_below(value, 4)
        },
        key == "presentation"@ ==> after == (AtmosBridge {
            presentation: after.presentation,
            ..before
        }),
        !accepted ==> after == before,
        key != "presentation"@ && key != "input_codec"@ ==> !accepted,
{
    crate::text::numbers_lie_below_their_limit(value, 4);
}

/// A host names the DRC mode: off, standard for the line, or heavy for RF.
pub proof fn drc_modes_are_named(mode: Seq<char>)
    ensures
        drc_named(mode) == Some(DrcMode::Off) <==> mode == "Off"@,
        drc_named(mode) == Some(DrcMode::Standard) <==> mode == "Standard"@ || mode == "Line"@
            || mode == "standard/line"@,
        drc_named(mode) == Some(DrcMode::Heavy) <==> mode == "Heavy"@ || mode == "RF"@ || mode
            == "heavy/RF"@,
{
    reveal_strlit("Off");
    reveal_strlit("Standard");
    reveal_strlit("Line");
    reveal_strlit("standard/line");
    reveal_strlit("Heavy");
    reveal_strlit("RF");
    reveal_strlit("heavy/RF");
    assert("Standard"@[0] == 'S' && "heavy/RF"@[0] == 'h');
    assert("Off"@.len() == 3 && "Standard"@.len() == 8 && "Line"@.len() == 4);
    assert("standard/line"@.len() == 13 && "Heavy"@.len() == 5 && "RF"@.len() == 2);
    assert("heavy/RF"@.len() == 8);
}

/// A failure of the E-AC-3 path starts the session over, keeps what the host
/// chose and the position in the stream, and says why. Frames that were decoded
/// before it stay.
pub proof fn failures_start_the_session_over<C, P, M>(
    before: AtmosBridge<C, P, M>,
    after: AtmosBridge<C, P, M>,
    message: Seq<char>,
    result_before: PushResult,
    result_after: PushResult,
    settings: DecoderSettings,
)
    requires
        restarted(before, after, message, result_before, result_after, settings) || mat_stopped(
            before,
            after,
            message,
            result_before,
            result_after,
            settings,
        ),
    ensures
        after.pending_eac3_core is None,
        after.eac3_frame_count == 0 && after.dts_frame_count == 0,
        !after.eac3_active && !after.dts_active && !after.dts_objects_active,
        after.raw_codec is None,
        after.dts_buf@.len() == 0,
        after.dts_x.locked is None && after.dts_x.last_metadata is None,
        after.dts_auro.phase is Undecided && after.dts_auro.held_frames().len() == 0,
        after.declared_object_channels is None,
        after.truehd_spatial_labels is None,
        !after.recovering_until_major_sync,
        after.forced_raw_codec == before.forced_raw_codec,
        after.presentation == before.presentation,
        after.strict == before.strict,
        after.total_samples == before.total_samples,
        after.drc_mode == before.drc_mode,
        after.frame_count == before.frame_count,
        after.eac3_diag_stats == before.eac3_diag_stats,
        result_after.frames == result_before.frames,
        result_after.did_reset,
        before.strict ==> result_after.error_message@ == message,
        settings.presentation == before.presentation,
        settings.fail_level == if before.strict {
            Level::Warn
        } else {
            Level::Error
        },
{
}

/// A failure of a DTS decoder stops a strict bridge and no other.
pub proof fn dts_failures_stop_strict_bridges<C, P, M>(
    before: AtmosBridge<C, P, M>,
    after: AtmosBridge<C, P, M>,
    message: Seq<char>,
    result_before: PushResult,
    result_after: PushResult,
    stopped: Option<DecoderSettings>,
)
    requires
        dts_stopped(before, after, message, result_before, result_after, stopped),
    ensures
        stopped is Some <==> before.strict,
        before.strict ==> after.session_is_fresh() && result_after.did_reset
            && result_after.error_message@ == message,
        !before.strict ==> after == before && result_after == result_before,
{
}

/// A stream carries objects by its path: a DTS stream where its latest frame
/// does, an E-AC-3 stream once a frame with objects came, and a TrueHD stream
/// where the last of the four presentations is played.
pub proof fn objects_are_told_by_the_path<C, P, M>(bridge: AtmosBridge<C, P, M>)
    requires
        bridge.wf(),
    ensures
        bridge.dts_active ==> (carries_objects(bridge) <==> bridge.dts_objects_active),
        !bridge.dts_active && bridge.eac3_active ==> (carries_objects(bridge)
            <==> bridge.eac3_diag_stats.joc_frames > 0),
        !bridge.dts_active && !bridge.eac3_active ==> (carries_objects(bridge)
            <==> bridge.presentation == 3),
{
}

/// A dependent joins the presentation in hand, at its end, while that has fewer
/// than eight; the one that carries the objects ends it. One without a
/// presentation, and a ninth one, are dropped and counted, and the ninth ends the
/// presentation. Any other unit ends it and is decoded. Every unit is counted.
pub proof fn dependents_join_the_unit_before_them<C, P, M>(
    before: AtmosBridge<C, P, M>,
    after: AtmosBridge<C, P, M>,
    unit: Seq<u8>,
    kind: Eac3UnitKind,
    step: Eac3Step,
)
    requires
        unit_begun(before, after, unit, kind, step),
        before.eac3_frame_count < u64::MAX,
        before.eac3_diag_stats.dependent_frames_dropped < u64::MAX,
    ensures
        after.eac3_frame_count == before.eac3_frame_count + 1,
        !kind.dependent ==> step == Eac3Step::ResolveAndDecode && after.pending_eac3_core
            == before.pending_eac3_core,
        kind.dependent ==> match before.pending_eac3_core {
            None => {
                &&& step == Eac3Step::Nothing
                &&& after.pending_eac3_core is None
                &&& after.eac3_diag_stats.dependent_frames_dropped
                    == before.eac3_diag_stats.dependent_frames_dropped + 1
            },
            Some(group) => if group.dependents@.len() >= 8 {
                &&& step == Eac3Step::Resolve
                &&& after.pending_eac3_core == before.pending_eac3_core
                &&& after.eac3_diag_stats.dependent_frames_dropped
                    == before.eac3_diag_stats.dependent_frames_dropped + 1
            } else {
                &&& step == if kind.carries_joc {
                    Eac3Step::Resolve
                } else {
                    Eac3Step::Nothing
                }
                &&& after.pending_eac3_core matches Some(grown)
                &&& grown.core == group.core
                &&& grown.last_carries_joc == kind.carries_joc
                &&& grown.dependents@.len() == group.dependents@.len() + 1
                &&& grown.dependents@.last()@ == unit
                &&& forall|place: int|
                    0 <= place < group.dependents@.len() ==> #[trigger] grown.dependents@[place]
                        == group.dependents@[place]
                &&& after.eac3_diag_stats.dependent_frames_dropped
                    == before.eac3_diag_stats.dependent_frames_dropped
            },
        },
{
    if let Some(group) = before.pending_eac3_core {
        if kind.dependent && group.dependents@.len() < 8 {
            let grown = after.pending_eac3_core->0;
            assert forall|place: int| 0 <= place < group.dependents@.len() implies
                #[trigger] grown.dependents@[place] == group.dependents@[place] by {
                assert(grown.dependents@.drop_last()[place] == grown.dependents@[place]);
            }
        }
    }
}

/// What is taken out to be resolved is what was in hand, and nothing stays: the
/// core alone where nothing joined it, else the core with all dependents in
/// order and whether the last of them carries the objects.
pub proof fn presentations_are_taken_out_whole<C, P, M>(
    before: AtmosBridge<C, P, M>,
    after: AtmosBridge<C, P, M>,
    resolution: Resolution<C, P>,
)
    requires
        presentation_taken(before, after, resolution),
        before.eac3_diag_stats.dependent_pair_attempts < u64::MAX,
    ensures
        after.pending_eac3_core is None,
        after.eac3_frame_count == before.eac3_frame_count,
        match resolution {
            Resolution::Empty => before.pending_eac3_core is None,
            Resolution::Standalone(core) => before.pending_eac3_core matches Some(group)
                && group.dependents@.len() == 0 && group.core == core,
            Resolution::Group { core, dependents, joc } => {
                &&& before.pending_eac3_core matches Some(group)
                &&& group.dependents@.len() > 0
                &&& group.core == core
                &&& group.dependents == dependents
                &&& group.last_carries_joc == joc
            },
        },
        after.eac3_diag_stats.dependent_pair_attempts
            == before.eac3_diag_stats.dependent_pair_attempts + if resolution is Group {
            1int
        } else {
            0
        },
{
}

/// A legacy frame is decoded as a core first. A frame that dependents may follow
/// is held as a core unless it carries the objects itself; every other one is
/// complete.
pub proof fn units_are_decoded_by_kind(kind: Eac3UnitKind, legacy_failed: bool)
    ensures
        decode_for(kind, legacy_failed) == Eac3Decode::Legacy <==> kind.legacy && !legacy_failed,
        decode_for(kind, legacy_failed) == Eac3Decode::Core <==> !(kind.legacy && !legacy_failed)
            && kind.can_carry_dependents && !kind.carries_joc,
{
}

/// A valid frame goes out behind those before it, but of the frames of a packet
/// that stand in for missing audio only the first does.
pub proof fn frames_go_out_once_they_are_judged(
    frame: DecodedFrame,
    valid: bool,
    temporary_silence: bool,
    silence: (bool, bool),
    results: (PushResult, PushResult),
)
    requires
        frame_emitted(
            frame,
            valid,
            temporary_silence,
            silence.0,
            silence.1,
            results.0,
            results.1,
        ),
    ensures
        !valid ==> results.1.frames@ == results.0.frames@ && silence.1 == silence.0,
        valid && !temporary_silence ==> results.1.frames@ == results.0.frames@.push(frame)
            && silence.1 == silence.0,
        valid && temporary_silence ==> silence.1,
        valid && temporary_silence && !silence.0 ==> results.1.frames@ == results.0.frames@.push(
            frame,
        ),
        valid && temporary_silence && silence.0 ==> results.1.frames@ == results.0.frames@,
{
}

/// The parser keeps up the presentation that is played and all before it, and
/// none behind it.
pub proof fn parsers_keep_up_to_what_is_played(played: u8, index: int)
    ensures
        is_required(played, played as int),
        !is_required(played, played + 1),
        0 <= index < played ==> is_required(played, index),
        index > played ==> !is_required(played, index),
{
}

/// A bridge is ready from the first frame of any path on, and one that starts
/// over is ready only by the TrueHD frames that it keeps count of.
pub proof fn bridges_are_ready_from_the_first_frame<C, P, M>(
    before: AtmosBridge<C, P, M>,
    after: AtmosBridge<C, P, M>,
)
    requires
        after.session_is_fresh(),
        after.keeps_choices_of(&before),
    ensures
        has_decoded(after) <==> before.frame_count > 0,
        !has_decoded(before) <==> before.frame_count == 0 && before.eac3_frame_count == 0
            && before.dts_frame_count == 0,
{
}

/// The DRC modes that a host can choose from are the three that there are, off
/// first, and each of them is accepted.
pub proof fn every_drc_choice_is_accepted()
    ensures
        drc_named(drc_choice(0)) == Some(DrcMode::Off),
        drc_named(drc_choice(1)) == Some(DrcMode::Standard),
        drc_named(drc_choice(2)) == Some(DrcMode::Heavy),
{
    drc_modes_are_named(drc_choice(0));
    drc_modes_are_named(drc_choice(1));
    drc_modes_are_named(drc_choice(2));
}

/// A DRC mode that is known is set, and nothing else is changed; one that is not
/// known changes nothing.
pub proof fn drc_modes_are_set<C, P, M>(
    before: AtmosBridge<C, P, M>,
    after: AtmosBridge<C, P, M>,
    mode: Seq<char>,
    accepted: bool,
)
    requires
        drc_taken(before, after, mode, accepted),
    ensures
        accepted ==> Some(after.drc_mode) == drc_named(mode),
        !accepted ==> after == before && drc_named(mode) is None,
        after == (AtmosBridge { drc_mode: after.drc_mode, ..before }),
{
}

/// DTS bytes are kept in the order in which they came.
pub proof fn dts_bytes_are_kept_in_order<C, P, M>(
    before: AtmosBridge<C, P, M>,
    after: AtmosBridge<C, P, M>,
    payload: Seq<u8>,
    place: int,
)
    requires
        dts_buffered(before, after, payload),
        0 <= place < before.dts_buf@.len() + payload.len(),
    ensures
        after.dts_buf@.len() == before.dts_buf@.len() + payload.len(),
        place < before.dts_buf@.len() ==> after.dts_buf@[place] == before.dts_buf@[place],
        place >= before.dts_buf@.len() ==> after.dts_buf@[place] == payload[place
            - before.dts_buf@.len()],
        after.total_samples == before.total_samples,
{
}

/// A legacy core that is held comes out as it went in, with its access unit,
/// where nothing joins it, and is counted.
pub proof fn held_legacy_cores_come_out_again<C, P, M>(
    before: AtmosBridge<C, P, M>,
    held: AtmosBridge<C, P, M>,
    after: AtmosBridge<C, P, M>,
    core: C,
    unit: Seq<u8>,
    resolution: Resolution<C, P>,
)
    requires
        legacy_held(before, held, core, unit),
        presentation_taken(held, after, resolution),
        before.eac3_diag_stats.ac3_core_decoded < u64::MAX,
    ensures
        resolution matches Resolution::Standalone(PendingEac3Core::LegacyAc3 {
            core: found,
            access_unit,
        }) && found == core && access_unit@ == unit,
        after.eac3_diag_stats.ac3_core_decoded == before.eac3_diag_stats.ac3_core_decoded + 1,
{
}

/// An independent core that is held comes out as it went in where nothing joins
/// it.
pub proof fn held_cores_come_out_again<C, P, M>(
    before: AtmosBridge<C, P, M>,
    held: AtmosBridge<C, P, M>,
    after: AtmosBridge<C, P, M>,
    push: P,
    resolution: Resolution<C, P>,
)
    requires
        independent_held(before, held, push),
        presentation_taken(held, after, resolution),
    ensures
        resolution == Resolution::<C, P>::Standalone(PendingEac3Core::Independent(push)),
        after.eac3_diag_stats == before.eac3_diag_stats,
{
}

/// A failure is counted once and the last one is remembered.
pub proof fn failures_are_counted_and_remembered<C, P, M>(
    bridge: AtmosBridge<C, P, M>,
    message: String,
)
    requires
        bridge.eac3_diag_stats.dependent_pair_failures < u64::MAX,
        bridge.eac3_diag_stats.ac3_core_decode_failures < u64::MAX,
    ensures
        ({
            let group = group_failure_counted(bridge, message);
            let legacy = legacy_failure_counted(bridge, message);
            &&& group.eac3_diag_stats.dependent_pair_failures
                == bridge.eac3_diag_stats.dependent_pair_failures + 1
            &&& group.eac3_diag_stats.last_dependent_pair_error == Some(message)
            &&& group.eac3_diag_stats.ac3_core_decode_failures
                == bridge.eac3_diag_stats.ac3_core_decode_failures
            &&& legacy.eac3_diag_stats.ac3_core_decode_failures
                == bridge.eac3_diag_stats.ac3_core_decode_failures + 1
            &&& legacy.eac3_diag_stats.last_ac3_core_decode_error == Some(message)
            &&& legacy.eac3_diag_stats.dependent_pair_failures
                == bridge.eac3_diag_stats.dependent_pair_failures
            &&& legacy.pending_eac3_core == bridge.pending_eac3_core
        }),
{
}

/// From the first frame with a JOC payload on, an E-AC-3 stream carries objects.
pub proof fn joc_frames_show_that_objects_are_carried<C, P, M>(bridge: AtmosBridge<C, P, M>)
    requires
        bridge.eac3_diag_stats.joc_frames < u64::MAX,
        bridge.eac3_active,
        !bridge.dts_active,
    ensures
        carries_objects(joc_frame_counted(bridge)),
        joc_frame_counted(bridge).eac3_diag_stats.joc_frames == bridge.eac3_diag_stats.joc_frames
            + 1,
        joc_frame_counted(bridge).frame_count == bridge.frame_count,
{
}

/// A bridge is ready once a TrueHD frame was decoded, and counts every one.
pub proof fn truehd_frames_make_a_bridge_ready<C, P, M>(bridge: AtmosBridge<C, P, M>, count: int)
    requires
        0 <= count,
        bridge.frame_count + count <= u64::MAX,
    ensures
        truehd_frames_counted(bridge, count).frame_count == bridge.frame_count + count,
        count > 0 ==> has_decoded(truehd_frames_counted(bridge, count)),
        truehd_frames_counted(bridge, 0) == bridge,
{
}

} // verus!
