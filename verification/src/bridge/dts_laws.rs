//! Laws of the DTS path: where frames are cut, what a frame plays on which
//! channel, and when the renderer is told of objects.

use crate::bridge::bridge::{AtmosBridge, PushResult};
use crate::bridge::bridge_laws::bytes_at;
use crate::bridge::codec::DtsProfile;
use crate::bridge::dts_demux::{
    answers, demux_step, first_word_is_first, search, DtsDemux, DtsReply, DtsRequest, DtsStage,
    ExssKind, HeaderReply,
};
use crate::bridge::dts_frame::{
    active_from, active_speakers, bed_columns, bed_is_even, bed_labels, core_columns, core_labels,
    estimation_settled, extended_columns, extended_labels, is_reported, plan_resolved, plays,
    presents, reported_finding, shape_changes, state_after, told_after, CoreFrame, DtsXState,
    Finding, HdFrame, PlanChoice, PlanSource,
};
use crate::bridge::dts_objects::{
    announced_after, declaration, describes, frame_declaration, frame_events, heartbeat_due,
    nothing_due, position_events, Announced, ObjectsModel, XPresentation,
};
use crate::bridge::dts_pipeline::{core_taken_in, drained, hd_taken_in, HdOutcome};
use crate::bridge::frame::{interleaved, DecodedFrame, Event, MetadataFrame};
use crate::bridge::labels::RChannelLabel;
use vstd::arithmetic::div_mod::{lemma_fundamental_div_mod_converse, lemma_mod_multiples_basic};
use vstd::prelude::*;

verus! {

/// Whether the core sync word 7F FE 80 01 stands at `at`.
pub open spec fn core_at(buffer: Seq<u8>, at: int) -> bool {
    0 <= at && bytes_at(buffer, at, 0x7F, 0xFE, 0x80, 0x01)
}

/// A search stops at the first core sync word from `consumed` on. Where there is
/// none it gives up all but the last three bytes, in which one may have begun.
pub proof fn searches_stop_at_the_first_sync(buffer: Seq<u8>, consumed: int)
    requires
        0 <= consumed <= buffer.len() <= usize::MAX,
    ensures
        match search(buffer, consumed) {
            (demux, DtsRequest::ParseHeader { at }) => {
                &&& demux.consumed == at
                &&& demux.stage == DtsStage::Header
                &&& consumed <= at
                &&& core_at(buffer, at as int)
                &&& forall|before: int| consumed <= before < at ==> !#[trigger] core_at(
                    buffer,
                    before,
                )
            },
            (demux, request) => {
                &&& request == DtsRequest::Done
                &&& demux.stage == DtsStage::Finished
                &&& demux.consumed == if buffer.len() >= consumed + 3 {
                    buffer.len() - 3
                } else {
                    consumed
                }
                &&& forall|before: int| consumed <= before ==> !#[trigger] core_at(buffer, before)
            },
        },
{
    first_word_is_first(buffer, crate::bridge::codec::core_sync(), consumed);
    assert forall|place: int| #[trigger] core_at(buffer, place) implies
        crate::bridge::codec::word_at(buffer, place, crate::bridge::codec::core_sync()) by {}
}

/// A core frame of `size` bytes is decoded alone, as a plain core, where no
/// extension substream, 64 58 20 25, follows it; where one does, it is sized
/// first. Until the four bytes behind it are there, everything waits. A candidate
/// that is no frame is passed by its sync word.
pub proof fn headers_decide_where_a_frame_ends(
    buffer: Seq<u8>,
    demux: DtsDemux,
    reply: HeaderReply,
)
    requires
        buffer.len() <= usize::MAX,
        demux.stage == DtsStage::Header,
        demux.wf(buffer),
    ensures
        ({
            let at = demux.consumed as int;
            let (next, request) = demux_step(buffer, demux, DtsReply::Header(reply));
            match reply {
                HeaderReply::InsufficientData => request == DtsRequest::Done && next.consumed == at,
                HeaderReply::Invalid => (next, request) == search(buffer, at + 4),
                HeaderReply::Frame(size) => if at + size + 4 > buffer.len() {
                    request == DtsRequest::Done && next.consumed == at
                } else if bytes_at(buffer, at + size, 0x64, 0x58, 0x20, 0x25) {
                    &&& next == (DtsDemux {
                        consumed: demux.consumed,
                        stage: DtsStage::Size { frame_size: size },
                    })
                    &&& request == (DtsRequest::SizeSubstream { at: (at + size) as usize })
                } else {
                    &&& next.consumed == at + size
                    &&& next.stage == DtsStage::Search
                    &&& request == (DtsRequest::DecodeCore {
                        from: at as usize,
                        to: (at + size) as usize,
                        profile: DtsProfile::Core,
                    })
                },
            }
        }),
{
}

/// A substream is classified once all of it is there, and it decides how its
/// core is decoded: with it where it adds anything, as lossless or as lossy, and
/// without it otherwise. The core and the substream are dealt with either way.
pub proof fn substreams_decide_how_their_core_is_decoded(
    buffer: Seq<u8>,
    demux: DtsDemux,
    reply: DtsReply,
)
    requires
        buffer.len() <= usize::MAX,
        demux.wf(buffer),
        answers(demux.stage, reply),
    ensures
        ({
            let at = demux.consumed as int;
            let (next, request) = demux_step(buffer, demux, reply);
            match (demux.stage, reply) {
                (DtsStage::Size { frame_size }, DtsReply::SubstreamSize(None)) => request
                    == DtsRequest::Done && next.consumed == at,
                (DtsStage::Size { frame_size }, DtsReply::SubstreamSize(Some(size))) => if at
                    + frame_size + size > buffer.len() {
                    request == DtsRequest::Done && next.consumed == at
                } else {
                    &&& next.consumed == at
                    &&& next.stage == (DtsStage::Kind { frame_size, substream_size: size })
                    &&& request == (DtsRequest::Classify {
                        from: (at + frame_size) as usize,
                        to: (at + frame_size + size) as usize,
                    })
                },
                (DtsStage::Kind { frame_size, substream_size }, DtsReply::Kind(kind)) => {
                    &&& next.consumed == at + frame_size + substream_size
                    &&& next.stage == DtsStage::Search
                    &&& match request {
                        DtsRequest::DecodeCore { from, to, profile } => {
                            &&& kind == ExssKind::Core
                            &&& from == at
                            &&& to == at + frame_size
                            &&& profile == DtsProfile::Hd
                        },
                        DtsRequest::DecodeHd { from, middle, to, profile } => {
                            &&& kind != ExssKind::Core
                            &&& from == at
                            &&& middle == at + frame_size
                            &&& to == at + frame_size + substream_size
                            &&& profile == DtsProfile::Ma <==> kind == ExssKind::Lossless
                            &&& profile == DtsProfile::Hd <==> kind == ExssKind::Lossy
                        },
                        _ => false,
                    }
                },
                _ => true,
            }
        }),
{
}

/// The bytes that are dealt with leave the buffer when nothing more can be done,
/// and no others do; the profile is that of the frame to decode.
pub proof fn drained_bytes_leave_the_buffer<C, P, M>(
    before: AtmosBridge<C, P, M>,
    after: AtmosBridge<C, P, M>,
    demux: (DtsDemux, DtsDemux),
    reply: DtsReply,
    request: DtsRequest,
)
    requires
        drained(before, after, demux.0, demux.1, reply, request),
        demux.1.consumed <= before.dts_buf@.len(),
    ensures
        request != DtsRequest::Done ==> after.dts_buf@ == before.dts_buf@,
        request == DtsRequest::Done ==> before.dts_buf@ =~= before.dts_buf@.take(
            demux.1.consumed as int,
        ) + after.dts_buf@,
        match request {
            DtsRequest::DecodeCore { profile, .. } => after.dts_profile == profile,
            DtsRequest::DecodeHd { profile, .. } => after.dts_profile == profile,
            _ => after.dts_profile == before.dts_profile,
        },
        after.total_samples == before.total_samples,
        after.dts_frame_count == before.dts_frame_count,
{
}

/// A finding is reported the first time, and from then on each time that its
/// count has doubled.
pub proof fn reports_come_at_every_doubling(count: int)
    requires
        count >= 1,
    ensures
        is_reported(1),
        is_reported(2 * count) == is_reported(count),
        !is_reported(2 * count + 1),
{
    reveal_with_fuel(crate::bridge::dts_frame::is_power_of_two, 3);
}

/// A sample of a frame is that of its channel at its instant, the channels of an
/// instant one behind the other; a channel without samples is silent.
pub proof fn samples_lie_instant_by_instant(
    columns: Seq<Option<Seq<i32>>>,
    count: int,
    instant: int,
    channel: int,
)
    requires
        0 <= instant < count,
        0 <= channel < columns.len(),
    ensures
        interleaved(columns, count).len() == count * columns.len(),
        interleaved(columns, count)[instant * columns.len() + channel] == match columns[channel] {
            Some(samples) => samples[instant],
            None => 0i32,
        },
{
    let width = columns.len() as int;
    let place = instant * width + channel;
    assert(0 <= place < count * width) by (nonlinear_arith)
        requires
            0 <= instant < count,
            0 <= channel < width,
            place == instant * width + channel,
    ;
    lemma_fundamental_div_mod_converse(place, width, instant, channel);
}

/// A speaker with samples is among the speakers from any one before it on.
proof fn lemma_active(samples: Seq<Option<Vec<i32>>>, from: int, speaker: int)
    requires
        0 <= from,
    ensures
        active_from(samples, from).contains(speaker) <==> from <= speaker < samples.len()
            && samples[speaker] is Some,
    decreases samples.len() - from,
{
    if from < samples.len() {
        lemma_active(samples, from + 1, speaker);
        let rest = active_from(samples, from + 1);
        if samples[from] is Some {
            let list = seq![from] + rest;
            if rest.contains(speaker) {
                let place = choose|place: int| 0 <= place < rest.len() && rest[place] == speaker;
                assert(list[place + 1] == speaker);
            }
            if list.contains(speaker) && speaker != from {
                let place = choose|place: int| 0 <= place < list.len() && list[place] == speaker;
                assert(rest[place - 1] == speaker);
            }
            if speaker == from {
                assert(list[0] == speaker);
            }
        }
    }
}

/// Every speaker that has samples plays, in the order of the speakers, with its
/// own samples, and no other one does.
pub proof fn every_speaker_with_samples_plays(hd: HdFrame, speaker: int)
    ensures
        0 <= speaker < hd.samples@.len() && hd.samples@[speaker] is Some ==> exists|channel: int|
            {
                &&& 0 <= channel < bed_columns(&hd).len()
                &&& #[trigger] bed_columns(&hd)[channel] == Some(hd.samples@[speaker]->0@)
                &&& bed_labels(&hd)[channel] == crate::bridge::labels::dts_speaker_label(
                    speaker as usize,
                )
                &&& active_speakers(hd.samples@)[channel] == speaker
            },
        active_speakers(hd.samples@).contains(speaker) ==> 0 <= speaker < hd.samples@.len()
            && hd.samples@[speaker] is Some,
        bed_columns(&hd).len() == active_speakers(hd.samples@).len(),
        bed_labels(&hd).len() == active_speakers(hd.samples@).len(),
{
    lemma_active(hd.samples@, 0, speaker);
    let active = active_speakers(hd.samples@);
    if active.contains(speaker) {
        let channel = choose|channel: int| 0 <= channel < active.len() && active[channel]
            == speaker;
        assert(bed_columns(&hd)[channel] == Some(hd.samples@[speaker]->0@));
    }
}

/// The presentations: four fixed heights with no, one, two, three or four
/// objects, or one object alone. The heights are those of the front and of the
/// back, left before right.
pub proof fn presentations_have_their_channels(presentation: XPresentation)
    ensures
        presentation.objects() == match presentation {
            XPresentation::Height => 0int,
            XPresentation::ObjectD0 | XPresentation::ObjectOnly => 1,
            XPresentation::ObjectsD1 => 2,
            XPresentation::ObjectsD0 => 3,
            XPresentation::ObjectsD3 => 4,
        },
        presentation.feeds() == presentation.objects() + if presentation
            == XPresentation::ObjectOnly {
            0int
        } else {
            4
        },
        presentation.feeds() <= 8,
{
}

/// Behind the bed come the fixed heights, Tfl, Tfr, Tbl and Tbr, which play the
/// waveforms behind those of the objects, and then the objects, which play the
/// first ones. A waveform plays only where it was decoded and its fold is known.
pub proof fn heights_and_objects_follow_the_bed(
    hd: HdFrame,
    presentation: XPresentation,
    index: int,
)
    requires
        0 <= index < presentation.feeds(),
    ensures
        ({
            let bed = bed_columns(&hd).len() as int;
            let heights = if presentation == XPresentation::ObjectOnly {
                0int
            } else {
                4
            };
            let feed = if index < heights {
                presentation.objects() + index
            } else {
                index - heights
            };
            let known = hd.detected is Some && feed < hd.feeds@.len() && feed
                < hd.feed_known@.len() && hd.feed_known@[feed];
            let columns = extended_columns(&hd, presentation);
            let labels = extended_labels(&hd, presentation);
            &&& columns.len() == bed + presentation.feeds()
            &&& labels.len() == columns.len()
            &&& columns.take(bed) =~= bed_columns(&hd)
            &&& labels.take(bed) =~= bed_labels(&hd)
            &&& known ==> columns[bed + index] == Some(hd.feeds@[feed]@)
            &&& !known ==> columns[bed + index] is None
            &&& labels[bed + index] == if index >= heights {
                RChannelLabel::Object
            } else if index == 0 {
                RChannelLabel::Tfl
            } else if index == 1 {
                RChannelLabel::Tfr
            } else if index == 2 {
                RChannelLabel::Tbl
            } else {
                RChannelLabel::Tbr
            }
        }),
{
}

/// A frame is presented by what it shows, else by what the stream showed last,
/// else as its bed alone; it has the rate and the length of its audio, and one
/// label for each channel.
pub proof fn frames_play_their_presentation<M>(
    frame: DecodedFrame,
    hd: HdFrame,
    state: DtsXState<M>,
    told: Announced,
    sample_pos: u64,
)
    requires
        presents(frame, &hd, &state, told, sample_pos),
    ensures
        ({
            let columns = if hd.detected is Some {
                extended_columns(&hd, hd.detected->0)
            } else if state.locked is Some {
                extended_columns(&hd, state.locked->0)
            } else {
                bed_columns(&hd)
            };
            let labels = if hd.detected is Some {
                extended_labels(&hd, hd.detected->0)
            } else if state.locked is Some {
                extended_labels(&hd, state.locked->0)
            } else {
                bed_labels(&hd)
            };
            &&& frame.sampling_frequency == hd.sample_rate
            &&& frame.sample_count == hd.sample_count
            &&& frame.channel_count == columns.len()
            &&& frame.samples() == interleaved(columns, hd.sample_count as int)
            &&& frame.channel_labels@ == labels
            &&& frame.metadata@.len() <= 1
        }),
{
}

/// What a frame shows is latched. A frame with an extension that shows nothing
/// counts as a dropout where something is latched, and as undecodable where
/// nothing is; one without an extension counts as nothing.
pub proof fn extensions_are_latched_and_counted<M>(hd: HdFrame, state: DtsXState<M>)
    requires
        state.feed_dropouts < u64::MAX,
        state.undecodable_extensions < u64::MAX,
    ensures
        ({
            let after = state_after(&hd, state);
            let lacks = hd.detected is None && hd.has_extension;
            &&& after.locked == if hd.detected is Some {
                hd.detected
            } else {
                state.locked
            }
            &&& after.feed_dropouts == state.feed_dropouts + if lacks && state.locked is Some {
                1int
            } else {
                0
            }
            &&& after.undecodable_extensions == state.undecodable_extensions + if lacks
                && state.locked is None {
                1int
            } else {
                0
            }
            &&& reported_finding(&hd, &state) == Some(Finding::FeedDropout) ==> lacks
                && state.locked is Some
            &&& reported_finding(&hd, &state) == Some(Finding::UndecodableExtension) ==> lacks
                && state.locked is None
            &&& lacks && state.locked is Some && state.feed_dropouts == 0 ==> reported_finding(
                &hd,
                &state,
            ) == Some(Finding::FeedDropout)
            &&& lacks && state.locked is None && state.undecodable_extensions == 0
                ==> reported_finding(&hd, &state) == Some(Finding::UndecodableExtension)
        }),
{
}

/// The plan comes from the frame's own metadata, else from the last that could
/// be read, else from the standard heights where there are no objects, else from
/// nothing. Metadata that cannot be read are counted.
pub proof fn plans_come_from_the_last_metadata<M>(
    before: DtsXState<M>,
    after: DtsXState<M>,
    parsed: Option<M>,
    presentation: XPresentation,
    choice: PlanChoice,
)
    requires
        plan_resolved(before, after, parsed, presentation, choice),
        before.parse_failures < u64::MAX,
    ensures
        parsed is Some ==> after.last_metadata == parsed && after.parse_failures
            == before.parse_failures && !choice.reported,
        parsed is None ==> after.last_metadata == before.last_metadata && after.parse_failures
            == before.parse_failures + 1,
        choice.source == PlanSource::Metadata <==> parsed is Some || before.last_metadata is Some,
        choice.source == PlanSource::StandardHeights <==> parsed is None
            && before.last_metadata is None && presentation == XPresentation::Height,
        parsed is None && before.parse_failures == 0 ==> choice.reported,
        after.locked == before.locked,
{
}

/// A core frame plays its full-band channels in their order under their own
/// labels, and the LFE behind them.
pub proof fn cores_play_their_channels_in_order(core: CoreFrame, channel: int)
    requires
        core.fullband_channel_order@.len() == core.fullband_channels@.len(),
        0 <= channel < core.fullband_channels@.len(),
    ensures
        ({
            let columns = core_columns(&core);
            let labels = core_labels(&core);
            let count = core.fullband_channels@.len() as int;
            &&& columns.len() == labels.len()
            &&& columns.len() == count + if core.lfe_channel is Some {
                1int
            } else {
                0
            }
            &&& columns[channel] == Some(core.fullband_channels@[channel]@)
            &&& labels[channel] == crate::bridge::labels::dca_bed_label(
                core.fullband_channel_order@[channel],
            )
            &&& core.lfe_channel matches Some(lfe) ==> columns[count] == Some(lfe@)
                && labels[count] == RChannelLabel::LFE
        }),
{
}

/// A decoded frame takes the stream on by its samples and is counted. A core has
/// no objects. What the Auro stage held goes out before it.
pub proof fn decoded_cores_go_out_behind_what_was_held<C, P, M>(
    before: AtmosBridge<C, P, M>,
    after: AtmosBridge<C, P, M>,
    core: CoreFrame,
    results: (PushResult, PushResult),
)
    requires
        core_taken_in(before, after, &core, results.0, results.1),
        before.total_samples + core.sample_count <= u64::MAX,
        before.dts_frame_count < u64::MAX,
    ensures
        after.total_samples == before.total_samples + core.sample_count,
        after.dts_frame_count == before.dts_frame_count + 1,
        !after.dts_objects_active && !after.dts_surrounds_on_side,
        results.1.frames@.len() == results.0.frames@.len() + before.dts_auro.held_frames().len()
            + 1,
        results.1.frames@ =~= results.0.frames@ + before.dts_auro.held_frames() + seq![
            results.1.frames@.last(),
        ],
        plays(
            results.1.frames@.last(),
            core.sample_rate,
            core.sample_count as int,
            core_columns(&core),
            core_labels(&core),
        ),
{
}

/// A decoded DTS-HD frame takes the stream on by its samples and is counted,
/// whether it plays or not. It is routed where it is lossless, goes out behind
/// what was held where it is lossy, and is dropped where a channel of its bed has
/// another length. It says where the surrounds are and whether objects play.
pub proof fn decoded_hd_frames_are_routed_or_go_out<C, P, M>(
    before: AtmosBridge<C, P, M>,
    after: AtmosBridge<C, P, M>,
    hd: HdFrame,
    lossless: bool,
    surrounds_on_side: bool,
    bed_extension_failed: bool,
    results: (PushResult, PushResult),
    outcome: HdOutcome,
)
    requires
        hd_taken_in(
            before,
            after,
            &hd,
            lossless,
            surrounds_on_side,
            bed_extension_failed,
            results.0,
            results.1,
            outcome,
        ),
        before.total_samples + hd.sample_count <= u64::MAX,
        before.dts_frame_count < u64::MAX,
        before.dts_x.bed_extension_dropouts < u64::MAX,
    ensures
        after.total_samples == before.total_samples + hd.sample_count,
        after.dts_frame_count == before.dts_frame_count + 1,
        after.dts_surrounds_on_side == surrounds_on_side,
        after.dts_x.bed_extension_dropouts == before.dts_x.bed_extension_dropouts + if
            bed_extension_failed {
            1int
        } else {
            0
        },
        ({
            let even = bed_is_even(hd.samples@, hd.sample_count as int);
            let shown = if hd.detected is Some {
                hd.detected
            } else {
                before.dts_x.locked
            };
            &&& outcome.to_route is Some <==> even && lossless
            &&& even ==> (after.dts_objects_active <==> (shown matches Some(presentation)
                && presentation != XPresentation::Height))
            &&& !even ==> after.dts_objects_active == before.dts_objects_active
            &&& results.1.frames@.len() == results.0.frames@.len() + if even && !lossless {
                before.dts_auro.held_frames().len() + 1
            } else {
                0
            }
            &&& even && !lossless ==> results.1.frames@ =~= results.0.frames@
                + before.dts_auro.held_frames() + seq![results.1.frames@.last()]
            &&& !even || lossless ==> results.1.frames@ == results.0.frames@
        }),
{
}

/// Object `index` has the id ten above its number, on the channel that lies as
/// far behind the first object channel.
pub proof fn objects_are_declared_in_order(presentation: XPresentation, first: int, index: int)
    requires
        0 <= index < presentation.objects(),
        0 <= first,
        first + 8 <= u32::MAX,
    ensures
        declaration(presentation, first).len() == presentation.objects(),
        declaration(presentation, first)[index].id == 10 + index,
        declaration(presentation, first)[index].channel == first + index,
{
}

/// Every object with a position is announced, at that position and at this time,
/// under the id ten above its number, and nothing else is.
pub proof fn positions_are_announced_as_given(
    positions: Seq<Option<crate::bridge::frame::SphericalPosition>>,
    sample_pos: u64,
    from: int,
    count: int,
    event: Event,
)
    requires
        0 <= from,
        count <= 8,
    ensures
        position_events(positions, sample_pos, from, count).contains(event) <==> {
            &&& event.sample_pos == sample_pos
            &&& 10 + from <= event.id < 10 + count
            &&& event.id - 10 < positions.len()
            &&& positions[event.id - 10] == Some(event.position)
        },
    decreases count - from,
{
    if from < count {
        positions_are_announced_as_given(positions, sample_pos, from + 1, count, event);
        let rest = position_events(positions, sample_pos, from + 1, count);
        let all = position_events(positions, sample_pos, from, count);
        if from < positions.len() && positions[from] is Some {
            let first = Event { id: (10 + from) as u32, sample_pos, position: positions[from]->0 };
            assert(all == seq![first] + rest);
            assert(all[0] == first);
            if rest.contains(event) {
                let place = choose|place: int| 0 <= place < rest.len() && rest[place] == event;
                assert(all[place + 1] == event);
            }
            if all.contains(event) && event != first {
                let place = choose|place: int| 0 <= place < all.len() && all[place] == event;
                assert(rest[place - 1] == event);
            }
        } else {
            assert(all == rest);
        }
    }
}

/// Objects are announced where one of them has moved, where they are declared,
/// and twice a second; otherwise nothing is said of them.
pub proof fn objects_are_announced_when_it_is_due(objects: ObjectsModel, told: Announced)
    requires
        objects.presentation.objects() > 0,
    ensures
        ({
            let known = told.declared == Some(
                declaration(objects.presentation, objects.first_object_channel),
            );
            let moved = exists|feed: int|
                {
                    &&& 0 <= feed < objects.presentation.objects()
                    &&& feed < objects.positions.len()
                    &&& #[trigger] objects.positions[feed] is Some
                    &&& told.emitted[feed] != objects.positions[feed]
                };
            let half = objects.sample_rate as int / 2;
            let beat = half > 0 && objects.sample_pos as int % half < objects.sample_count;
            let all = position_events(
                objects.positions,
                objects.sample_pos,
                0,
                objects.presentation.objects(),
            );
            &&& moved || !known || beat ==> frame_events(objects, told) == all
            &&& !moved && known && !beat ==> frame_events(objects, told).len() == 0
            &&& known ==> frame_declaration(objects, told).len() == 0
            &&& !known ==> frame_declaration(objects, told) == declaration(
                objects.presentation,
                objects.first_object_channel,
            )
            &&& announced_after(objects, told).declared == Some(
                declaration(objects.presentation, objects.first_object_channel),
            )
        }),
{
    let moved = exists|feed: int|
        {
            &&& 0 <= feed < objects.presentation.objects()
            &&& feed < objects.positions.len()
            &&& #[trigger] objects.positions[feed] is Some
            &&& told.emitted[feed] != objects.positions[feed]
        };
    let any = crate::bridge::dts_objects::any_moved(
        objects.positions,
        told.emitted,
        objects.presentation.objects(),
    );
    if moved {
        let feed = choose|feed: int|
            {
                &&& 0 <= feed < objects.presentation.objects()
                &&& feed < objects.positions.len()
                &&& #[trigger] objects.positions[feed] is Some
                &&& told.emitted[feed] != objects.positions[feed]
            };
        assert(told.emitted[feed] != crate::bridge::dts_objects::position_of(
            objects.positions,
            feed,
        ));
        assert(any);
    }
    if any {
        let feed = choose|feed: int|
            0 <= feed < objects.presentation.objects() && crate::bridge::dts_objects::position_of(
                objects.positions,
                feed,
            ) is Some && #[trigger] told.emitted[feed] != crate::bridge::dts_objects::position_of(
                objects.positions,
                feed,
            );
        assert(objects.positions[feed] is Some);
        assert(moved);
    }
}

/// What is announced is remembered: an object with a position stands there from
/// then on, and another one where it stood.
pub proof fn announced_positions_are_remembered(
    objects: ObjectsModel,
    told: Announced,
    feed: int,
)
    requires
        told.emitted.len() == 8,
        0 <= feed < 8,
    ensures
        ({
            let placed = feed < objects.presentation.objects() && feed < objects.positions.len()
                && objects.positions[feed] is Some;
            let after = announced_after(objects, told);
            &&& after.emitted.len() == 8
            &&& placed ==> after.emitted[feed] == objects.positions[feed]
            &&& !placed ==> after.emitted[feed] == told.emitted[feed]
        }),
{
    let count = objects.presentation.objects();
    if count > 0 && feed < count && feed < objects.positions.len() && objects.positions[feed]
        is Some {
        if !crate::bridge::dts_objects::positions_due(objects, told) {
            assert(!crate::bridge::dts_objects::any_moved(objects.positions, told.emitted, count));
            assert(told.emitted[feed] == crate::bridge::dts_objects::position_of(
                objects.positions,
                feed,
            ));
        }
    }
}

/// A frame that has something to say of its objects says it for its own time,
/// and names each object that it declares by its number.
pub proof fn descriptions_name_what_they_declare(
    frame: MetadataFrame,
    objects: ObjectsModel,
    told: Announced,
    index: int,
)
    requires
        describes(frame, objects, told),
        0 <= index < frame.object_channels@.len() <= 4,
    ensures
        frame.sample_pos == objects.sample_pos,
        frame.ramp_duration == 0,
        frame.events@ == frame_events(objects, told),
        frame.object_channels@ == frame_declaration(objects, told),
        frame.name_updates@.len() == frame.object_channels@.len(),
        frame.name_updates@[index].id == 10 + index,
        frame.name_updates@[index].name@ == seq!['X', ('0' as u32 + index) as u8 as char],
{
    reveal_strlit("X0");
    reveal_strlit("X1");
    reveal_strlit("X2");
    reveal_strlit("X3");
    let name = frame.name_updates@[index].name@;
    assert(frame.name_updates@[index].name@ == crate::bridge::dts_objects::feed_name(index));
    assert(name =~= seq!['X', ('0' as u32 + index) as u8 as char]);
}

/// Nothing is due exactly where there are no objects, or they are declared and
/// none of them is announced.
pub proof fn something_is_due_for_news_only(objects: ObjectsModel, told: Announced)
    ensures
        nothing_due(objects, told) <==> frame_events(objects, told).len() == 0
            && frame_declaration(objects, told).len() == 0,
{
}

/// The heartbeat comes in a frame exactly where a multiple of half a second lies
/// less than its length before its start or at it.
pub proof fn heartbeats_come_twice_a_second(
    sample_rate: u32,
    sample_pos: u64,
    sample_count: usize,
)
    requires
        sample_rate >= 2,
    ensures
        heartbeat_due(sample_rate, sample_pos, sample_count) ==> exists|beat: int|
            {
                &&& #[trigger] (beat % (sample_rate as int / 2)) == 0
                &&& beat <= sample_pos < beat + sample_count
            },
        heartbeat_due(sample_rate, sample_pos, sample_count) <==> (sample_pos as int) % (
        sample_rate as int / 2) < sample_count,
{
    let half = sample_rate as int / 2;
    let position = sample_pos as int;
    let beat = position - position % half;
    vstd::arithmetic::div_mod::lemma_fundamental_div_mod(position, half);
    assert(beat == (position / half) * half) by (nonlinear_arith)
        requires
            position == half * (position / half) + position % half,
            beat == position - position % half,
    ;
    lemma_mod_multiples_basic(position / half, half);
    assert(beat % half == 0);
}

/// A frame says of its objects what is due: they lie behind the bed and the fixed
/// heights, at the positions that the frame itself gives, at the time where it
/// starts. A frame without objects says nothing. What was said is remembered.
pub proof fn frames_describe_their_objects<M>(
    frame: DecodedFrame,
    hd: HdFrame,
    state: DtsXState<M>,
    told: Announced,
    sample_pos: u64,
    presentation: XPresentation,
)
    requires
        presents(frame, &hd, &state, told, sample_pos),
        hd.detected == Some(presentation) || hd.detected is None && state.locked == Some(
            presentation,
        ),
    ensures
        ({
            let heights: int = if presentation == XPresentation::ObjectOnly {
                0
            } else {
                4
            };
            let objects = ObjectsModel {
                presentation,
                positions: if hd.detected is Some {
                    hd.positions@
                } else {
                    Seq::empty()
                },
                first_object_channel: active_speakers(hd.samples@).len() + heights,
                sample_pos,
                sample_rate: hd.sample_rate,
                sample_count: hd.sample_count,
            };
            &&& presentation == XPresentation::Height ==> frame.metadata@.len() == 0
            &&& nothing_due(objects, told) ==> frame.metadata@.len() == 0
            &&& !nothing_due(objects, told) ==> frame.metadata@.len() == 1 && describes(
                frame.metadata@[0],
                objects,
                told,
            )
            &&& told_after(&hd, &state, told, sample_pos) == announced_after(objects, told)
        }),
{
    let objects = crate::bridge::dts_frame::frame_objects(&hd, presentation, sample_pos);
    assert(objects.positions =~= if hd.detected is Some {
        hd.positions@
    } else {
        Seq::empty()
    });
}

/// A frame without a presentation says nothing of objects, and leaves what was
/// said.
pub proof fn plain_beds_say_nothing<M>(
    frame: DecodedFrame,
    hd: HdFrame,
    state: DtsXState<M>,
    told: Announced,
    sample_pos: u64,
)
    requires
        presents(frame, &hd, &state, told, sample_pos),
        hd.detected is None,
        state.locked is None,
    ensures
        frame.metadata@.len() == 0,
        told_after(&hd, &state, told, sample_pos) == told,
{
}

/// Waveforms are estimated out of the bed exactly where that is asked for and
/// there is one without a stated fold; it is noted from then on.
pub proof fn estimation_needs_leave_and_need<M>(
    before: DtsXState<M>,
    after: DtsXState<M>,
    estimate_unknown: bool,
    has_unknown: bool,
    estimates: bool,
)
    requires
        estimation_settled(before, after, estimate_unknown, has_unknown, estimates),
    ensures
        estimates <==> estimate_unknown && has_unknown,
        estimates ==> after.estimation_noted,
        before.estimation_noted ==> after.estimation_noted,
        !estimates ==> after == before,
{
}

/// The shape of a stream changes exactly where a presentation is shown that is
/// not the one that was latched.
pub proof fn shapes_change_with_the_presentation(
    locked: Option<XPresentation>,
    detected: Option<XPresentation>,
)
    ensures
        shape_changes(locked, detected) <==> (locked matches Some(old_shape) && detected matches
            Some(new_shape) && old_shape != new_shape),
{
}

/// A bed is even exactly where every channel of it has the length of the frame.
pub proof fn even_beds_have_one_length(samples: Seq<Option<Vec<i32>>>, count: int, speaker: int)
    ensures
        bed_is_even(samples, count) && 0 <= speaker < samples.len() && samples[speaker] is Some
            ==> samples[speaker]->0@.len() == count,
        !bed_is_even(samples, count) ==> exists|odd: int|
            {
                &&& 0 <= odd < samples.len()
                &&& #[trigger] samples[odd] is Some
                &&& samples[odd]->0@.len() != count
            },
{
}

/// Objects are announced in the order of their numbers, each once.
pub proof fn positions_are_announced_in_order(
    positions: Seq<Option<crate::bridge::frame::SphericalPosition>>,
    sample_pos: u64,
    from: int,
    count: int,
)
    requires
        0 <= from,
        count <= 8,
    ensures
        ({
            let events = position_events(positions, sample_pos, from, count);
            &&& forall|place: int|
                0 <= place < events.len() ==> (#[trigger] events[place]).id >= 10 + from
            &&& forall|left: int, right: int|
                0 <= left < right < events.len() ==> (#[trigger] events[left]).id < (
                #[trigger] events[right]).id
        }),
    decreases count - from,
{
    if from < count {
        positions_are_announced_in_order(positions, sample_pos, from + 1, count);
        let rest = position_events(positions, sample_pos, from + 1, count);
        let all = position_events(positions, sample_pos, from, count);
        if from < positions.len() && positions[from] is Some {
            let first = Event { id: (10 + from) as u32, sample_pos, position: positions[from]->0 };
            assert(all == seq![first] + rest);
            assert forall|left: int, right: int| 0 <= left < right < all.len() implies (
            #[trigger] all[left]).id < (#[trigger] all[right]).id by {
                assert(all[right] == rest[right - 1]);
                if left > 0 {
                    assert(all[left] == rest[left - 1]);
                }
            }
            assert forall|place: int| 0 <= place < all.len() implies (#[trigger] all[place]).id
                >= 10 + from by {
                if place > 0 {
                    assert(all[place] == rest[place - 1]);
                }
            }
        } else {
            assert(all == rest);
        }
    }
}

} // verus!
