//! Laws of the Auro stage, of the configured fold and of the log.

use crate::auro::layout::{layout_streams, presentation_of};
use crate::bridge::auro_stage::{
    channels_for, detection_prepared, frame_routed, unfolded_taken, DetectionNeed, DtsAuroState,
    Phase, Routed, UnfoldStart, Verdict,
};
use crate::bridge::fold_config::{
    configured_gain, route_place, source_place, DtsFoldConfig, FoldRoute, FoldSource,
};
use crate::bridge::frame::DecodedFrame;
use crate::bridge::labels::auro_label;
use crate::bridge::logging::{
    bridge_target, filter_named, filter_rank, is_space, level_set, record_forwarded, trimmed,
    trimmed_end, trimmed_start, without_line_ends, LevelFilter,
};
use crate::level::{level_rank, Level};
use crate::text::{ascii_lower, same_ignoring_case};
use vstd::prelude::*;

verus! {

/// A stage that has stepped aside lets every frame out at once, behind those
/// that went before it.
pub proof fn plain_stages_let_frames_out(
    before: DtsAuroState,
    after: DtsAuroState,
    frame: DecodedFrame,
    speakers: Seq<usize>,
    verdict: Verdict,
    outs: (Seq<DecodedFrame>, Seq<DecodedFrame>),
    routed: Routed,
)
    requires
        frame_routed(before, after, frame, speakers, verdict, outs.0, outs.1, routed),
        before.phase is Plain,
    ensures
        routed is Passed,
        after.phase is Plain,
        outs.1 =~= outs.0.push(frame),
{
}

/// An undecided stage holds a frame of the bed back while its carrier is not
/// confirmed and no more samples are held than two of the largest blocks, or four
/// once a block was found. Beyond that it lets everything out and steps aside,
/// and so it does for a frame with more channels than its bed.
pub proof fn frames_are_held_up_to_the_limit(
    before: DtsAuroState,
    after: DtsAuroState,
    frame: DecodedFrame,
    speakers: Seq<usize>,
    verdict: Verdict,
    outs: (Seq<DecodedFrame>, Seq<DecodedFrame>),
    routed: Routed,
)
    requires
        frame_routed(before, after, frame, speakers, verdict, outs.0, outs.1, routed),
        before.phase is Undecided,
        verdict.latched is None,
    ensures
        ({
            let count = before.held_count() + frame.sample_count;
            let blocks: int = if verdict.any_block {
                4
            } else {
                2
            };
            let held = frame.channel_count == speakers.len() && count <= blocks * before.max_block;
            &&& routed is Held <==> held
            &&& routed is Passed <==> !held
            &&& held ==> {
                &&& after.phase matches Phase::Undecided { held_speakers, .. }
                &&& held_speakers@.last()@ == speakers
                &&& outs.1 =~= outs.0
                &&& after.held_frames() =~= before.held_frames().push(frame)
                &&& after.held_count() == count
            }
            &&& !held ==> {
                &&& outs.1 =~= outs.0 + before.held_frames() + seq![frame]
                &&& after.phase is Plain
            }
        }),
{
}

/// The Auro stream of a DTS speaker: C, L, R, Ls, Rs, LFE, Cs, Lb, Rb.
pub open spec fn stream_of(speaker: usize) -> u8 {
    if speaker == 0 {
        2
    } else if speaker == 1 {
        0
    } else if speaker == 2 {
        1
    } else if speaker == 3 {
        4
    } else if speaker == 4 {
        5
    } else if speaker == 5 {
        3
    } else if speaker <= 8 {
        speaker as u8
    } else {
        255
    }
}

/// A confirmed carrier starts the unfolding: the unfolder is set up from the
/// speakers of the first frame to the streams of the layout that is restored, and
/// is given every sample that was held, frame by frame and channel by channel,
/// this frame's last.
pub proof fn confirmed_carriers_are_replayed_whole(
    before: DtsAuroState,
    after: DtsAuroState,
    frame: DecodedFrame,
    speakers: Seq<usize>,
    verdict: Verdict,
    outs: (Seq<DecodedFrame>, Seq<DecodedFrame>),
    start: UnfoldStart,
    place: int,
    channel: int,
    instant: int,
)
    requires
        frame_routed(
            before,
            after,
            frame,
            speakers,
            verdict,
            outs.0,
            outs.1,
            Routed::Started(start),
        ),
        0 <= place <= before.held_frames().len(),
        ({
            let all = before.held_frames().push(frame);
            0 <= instant < all[place].sample_count
        }),
        0 <= channel < start.carriers@.len(),
    ensures
        ({
            let all = before.held_frames().push(frame);
            &&& verdict.latched matches Some(detection)
            &&& layout_streams(detection.original.0) == Some(start.outputs@)
            &&& start.block_size == detection.block_size
            &&& start.replay@.len() == all.len()
            &&& start.replay@[place]@.len() == start.carriers@.len()
            &&& start.replay@[place]@[channel]@.len() == all[place].sample_count
            &&& start.replay@[place]@[channel]@[instant] == all[place].samples()[instant
                * all[place].channel_count + channel]
            &&& outs.1 =~= outs.0
            &&& after.phase matches Phase::Unfolding {
                speakers: carriers,
                outputs,
                labels,
                sample_rate,
                ..
            }
            &&& outputs@ == start.outputs@
            &&& before.phase matches Phase::Undecided { held_speakers, .. }
            &&& carriers@ == if held_speakers@.len() > 0 {
                held_speakers@[0]@
            } else {
                speakers
            }
            &&& carriers@.len() == start.carriers@.len()
            &&& start.carriers@[channel] == stream_of(carriers@[channel])
            &&& labels@.len() == outputs@.len()
            &&& forall|index: int|
                0 <= index < outputs@.len() ==> #[trigger] labels@[index] == auro_label(
                    outputs@[index],
                )
            &&& sample_rate == all[0].sampling_frequency
        }),
{
    let replayed = start.replay@[place]@[channel]@;
    assert(start.replay@[place]@[channel]@ == crate::bridge::auro_stage::frame_column(
        before.held_frames().push(frame)[place],
        channel,
    ));
}

/// A stage starts to unfold exactly where a carrier is confirmed whose layout has
/// known streams, in a frame of the bed. From then on every frame is unfolded.
pub proof fn only_confirmed_carriers_are_unfolded(
    before: DtsAuroState,
    after: DtsAuroState,
    frame: DecodedFrame,
    speakers: Seq<usize>,
    verdict: Verdict,
    outs: (Seq<DecodedFrame>, Seq<DecodedFrame>),
    routed: Routed,
)
    requires
        frame_routed(before, after, frame, speakers, verdict, outs.0, outs.1, routed),
    ensures
        routed is Started <==> before.phase is Undecided && frame.channel_count == speakers.len()
            && (verdict.latched matches Some(detection) && layout_streams(
            detection.original.0,
        ) is Some),
        routed is Unfold <==> before.phase is Unfolding,
        before.phase is Unfolding ==> after.phase == before.phase && outs.1 =~= outs.0,
        routed is Started ==> after.phase is Unfolding,
        after.max_block == before.max_block,
{
}

/// The detector sees every frame of the bed until the stage is decided, and is
/// set up once, for the first of them.
pub proof fn detectors_are_set_up_once(
    before: DtsAuroState,
    after: DtsAuroState,
    frame: DecodedFrame,
    speakers: Seq<usize>,
    need: DetectionNeed,
)
    requires
        detection_prepared(before, after, frame, speakers, need),
        channels_for(speakers) <= usize::MAX,
    ensures
        need is Yes <==> before.phase is Undecided && frame.channel_count == speakers.len(),
        need matches DetectionNeed::Yes { new_channels } ==> {
            &&& before.phase matches Phase::Undecided { detector_channels: set, .. }
            &&& after.phase matches Phase::Undecided { detector_channels: now, .. }
            &&& new_channels is Some <==> set == 0
            &&& new_channels matches Some(count) ==> count == channels_for(speakers) && now
                == count
            &&& new_channels is None ==> now == set
        },
        need is No ==> after.phase == before.phase,
        after.held_frames() == before.held_frames(),
        after.held_count() == before.held_count(),
{
}

/// The detector has a channel for every speaker and no more than the last of
/// them needs.
pub proof fn detectors_reach_every_speaker(speakers: Seq<usize>, index: int)
    requires
        0 <= index < speakers.len(),
    ensures
        channels_for(speakers) > speakers[index],
        exists|last: int|
            0 <= last < speakers.len() && channels_for(speakers) == #[trigger] speakers[last] + 1,
    decreases speakers.len(),
{
    let rest = speakers.drop_last();
    if rest.len() > 0 {
        detectors_reach_every_speaker(
            rest,
            if index < rest.len() {
                index
            } else {
                0
            },
        );
        let last = choose|last: int|
            0 <= last < rest.len() && channels_for(rest) == #[trigger] rest[last] + 1;
        if channels_for(speakers) == channels_for(rest) {
            assert(channels_for(speakers) == speakers[last] + 1);
        }
    }
    let top = speakers.len() - 1;
    assert(channels_for(speakers) == speakers[top] + 1 || channels_for(speakers) == channels_for(
        rest,
    ));
}

/// What the unfolder gives goes out as one frame, at the rate of the carrier and
/// under the labels of the layout, sample for sample.
pub proof fn unfolded_frames_go_out_as_given(
    stage: DtsAuroState,
    taken: Seq<i32>,
    ready: int,
    count: int,
    outs: (Seq<DecodedFrame>, Seq<DecodedFrame>),
    place: int,
)
    requires
        unfolded_taken(stage, taken, ready, count, outs.0, outs.1),
        stage.phase matches Phase::Unfolding { outputs, .. } && count * outputs@.len()
            <= taken.len() && 0 <= place < count * outputs@.len(),
        ready > 0,
    ensures
        outs.1.len() == outs.0.len() + 1,
        outs.1.take(outs.0.len() as int) =~= outs.0,
        outs.1.last().sample_count == count,
        outs.1.last().samples()[place] == taken[place],
        stage.phase matches Phase::Unfolding { outputs, labels, sample_rate, .. } && {
            &&& outs.1.last().channel_count == outputs@.len()
            &&& outs.1.last().channel_labels@ == labels@
            &&& outs.1.last().sampling_frequency == sample_rate
        },
        outs.1.last().metadata@.len() == 0,
{
    assert(outs.1.take(outs.0.len() as int) =~= outs.1.drop_last());
}

/// The first source with a name, in letters of any case.
proof fn lemma_source_place<G>(sources: Seq<FoldSource<G>>, name: Seq<char>, index: int)
    requires
        0 <= index,
    ensures
        match source_place(sources, name, index) {
            Some(place) => {
                &&& index <= place < sources.len()
                &&& same_ignoring_case(sources[place].source@, name)
                &&& forall|before: int|
                    index <= before < place ==> !same_ignoring_case(
                        (#[trigger] sources[before]).source@,
                        name,
                    )
            },
            None => forall|before: int|
                index <= before < sources.len() ==> !same_ignoring_case(
                    (#[trigger] sources[before]).source@,
                    name,
                ),
        },
    decreases sources.len() - index,
{
    if index < sources.len() && !same_ignoring_case(sources[index].source@, name) {
        lemma_source_place(sources, name, index + 1);
    }
}

/// The first route with a target, in letters of any case.
proof fn lemma_route_place<G>(routes: Seq<FoldRoute<G>>, name: Seq<char>, index: int)
    requires
        0 <= index,
    ensures
        match route_place(routes, name, index) {
            Some(place) => {
                &&& index <= place < routes.len()
                &&& same_ignoring_case(routes[place].target@, name)
                &&& forall|before: int|
                    index <= before < place ==> !same_ignoring_case(
                        (#[trigger] routes[before]).target@,
                        name,
                    )
            },
            None => forall|before: int|
                index <= before < routes.len() ==> !same_ignoring_case(
                    (#[trigger] routes[before]).target@,
                    name,
                ),
        },
    decreases routes.len() - index,
{
    if index < routes.len() && !same_ignoring_case(routes[index].target@, name) {
        lemma_route_place(routes, name, index + 1);
    }
}

/// The gain of a fold is the one of the first route to the target within the
/// first source of the name, in letters of any case; a source or a target that
/// is not named has none.
pub proof fn gains_are_found_by_source_and_target<G>(
    config: DtsFoldConfig<G>,
    target: Seq<char>,
    source: Seq<char>,
    place: int,
    route: int,
)
    ensures
        0 <= place < config.sources@.len() && same_ignoring_case(
            config.sources@[place].source@,
            source,
        ) && (forall|before: int|
            0 <= before < place ==> !same_ignoring_case(
                (#[trigger] config.sources@[before]).source@,
                source,
            )) && 0 <= route < config.sources@[place].routes@.len() && same_ignoring_case(
            config.sources@[place].routes@[route].target@,
            target,
        ) && (forall|before: int|
            0 <= before < route ==> !same_ignoring_case(
                (#[trigger] config.sources@[place].routes@[before]).target@,
                target,
            )) ==> configured_gain(config, target, source) == Some(
            config.sources@[place].routes@[route].gain_db,
        ),
        (forall|other: int|
            0 <= other < config.sources@.len() ==> !same_ignoring_case(
                (#[trigger] config.sources@[other]).source@,
                source,
            )) ==> configured_gain(config, target, source) is None,
{
    lemma_source_place(config.sources@, source, 0);
    if let Some(found) = source_place(config.sources@, source, 0) {
        lemma_route_place(config.sources@[found].routes@, target, 0);
        assert(config.sources@[found].source@ == config.sources@[found].source@);
        if let Some(taken) = route_place(config.sources@[found].routes@, target, 0) {
            assert(same_ignoring_case(
                config.sources@[found].routes@[taken].target@,
                target,
            ));
        }
    }
}

/// A filter lets a level through where it is at least as severe as its own.
pub proof fn filters_pass_what_is_severe_enough(level: Level)
    ensures
        level_rank(level) > filter_rank(LevelFilter::Off),
        level_rank(level) <= filter_rank(LevelFilter::Error) <==> level == Level::Error,
        level_rank(level) <= filter_rank(LevelFilter::Warn) <==> level == Level::Error || level
            == Level::Warn,
        level_rank(level) <= filter_rank(LevelFilter::Info) <==> level != Level::Debug && level
            != Level::Trace,
        level_rank(level) <= filter_rank(LevelFilter::Debug) <==> level != Level::Trace,
        level_rank(level) <= filter_rank(LevelFilter::Trace),
{
}

/// White space at the end of a text is cut off, and nothing else.
proof fn lemma_end(text: Seq<char>)
    ensures
        trimmed_end(text).len() <= text.len(),
        trimmed_end(text) =~= text.take(trimmed_end(text).len() as int),
        trimmed_end(text).len() > 0 ==> !is_space(trimmed_end(text).last()),
        forall|place: int|
            trimmed_end(text).len() <= place < text.len() ==> is_space(#[trigger] text[place]),
    decreases text.len(),
{
    if text.len() > 0 && is_space(text.last()) {
        lemma_end(text.drop_last());
        assert forall|place: int| trimmed_end(text).len() <= place < text.len() implies is_space(
            #[trigger] text[place],
        ) by {
            if place < text.len() - 1 {
                assert(text.drop_last()[place] == text[place]);
            }
        }
    }
}

/// White space at the start of a text is cut off, and nothing else.
proof fn lemma_front(text: Seq<char>)
    ensures
        trimmed_start(text).len() <= text.len(),
        trimmed_start(text) =~= text.skip(text.len() - trimmed_start(text).len()),
        trimmed_start(text).len() > 0 ==> !is_space(trimmed_start(text)[0]),
        forall|place: int|
            0 <= place < text.len() - trimmed_start(text).len() ==> is_space(
                #[trigger] text[place],
            ),
    decreases text.len(),
{
    if text.len() > 0 && is_space(text[0]) {
        let rest = text.subrange(1, text.len() as int);
        lemma_front(rest);
        assert forall|place: int|
            0 <= place < text.len() - trimmed_start(text).len() implies is_space(
            #[trigger] text[place],
        ) by {
            if place > 0 {
                assert(rest[place - 1] == text[place]);
            }
        }
    }
}

/// What is left of a text begins and ends with no white space and is a piece of
/// it; what was cut off on either side is white space.
pub proof fn white_space_is_cut_off_around_a_text(text: Seq<char>) -> (from: int)
    ensures
        ({
            let left = trimmed(text);
            &&& 0 <= from
            &&& from + left.len() <= text.len()
            &&& left =~= text.subrange(from, from + left.len())
            &&& left.len() > 0 ==> !is_space(left[0]) && !is_space(left.last())
            &&& forall|place: int|
                0 <= place < from || from + left.len() <= place < text.len() ==> is_space(
                    #[trigger] text[place],
                )
        }),
{
    let behind = trimmed_start(text);
    lemma_front(text);
    lemma_end(behind);
    let from = text.len() - behind.len();
    assert forall|place: int|
        0 <= place < from || from + trimmed(text).len() <= place < text.len() implies is_space(
        #[trigger] text[place],
    ) by {
        if place >= from {
            assert(behind[place - from] == text[place]);
        }
    }
    from
}

/// A message loses the line ends behind it and nothing else.
pub proof fn line_ends_are_cut_off_behind_a_message(text: Seq<char>)
    ensures
        without_line_ends(text).len() <= text.len(),
        without_line_ends(text) =~= text.take(without_line_ends(text).len() as int),
        without_line_ends(text).len() > 0 ==> without_line_ends(text).last() != '\n',
        forall|place: int|
            without_line_ends(text).len() <= place < text.len() ==> #[trigger] text[place] == '\n',
    decreases text.len(),
{
    if text.len() > 0 && text.last() == '\n' {
        line_ends_are_cut_off_behind_a_message(text.drop_last());
        assert forall|place: int| without_line_ends(text).len() <= place < text.len() implies
            #[trigger] text[place] == '\n' by {
            if place < text.len() - 1 {
                assert(text.drop_last()[place] == text[place]);
            }
        }
    }
}

/// The bridge's own records are those of its crate and of what lies in it.
pub proof fn own_records_are_forwarded(rest: Seq<char>)
    ensures
        bridge_target("harletty_bridge"@),
        bridge_target("harletty_bridge::"@ + rest),
{
    let inner = "harletty_bridge::"@;
    assert((inner + rest).subrange(0, inner.len() as int) =~= inner);
}

/// The log level is the one that a setting names, with or without white space
/// around it, and `info` where it names none or there is none.
pub proof fn log_levels_default_to_info(text: Seq<char>)
    ensures
        level_set(None) == LevelFilter::Info,
        crate::bridge::logging::filter_named(trimmed(text)) is None ==> level_set(Some(text))
            == LevelFilter::Info,
        crate::bridge::logging::filter_named(trimmed(text)) matches Some(filter) ==> level_set(
            Some(text),
        ) == filter,
{
}

/// A filter is named by its own word, in letters of any case.
pub proof fn filters_are_named_in_any_case(text: Seq<char>)
    ensures
        same_ignoring_case(text, "off"@) ==> filter_named(text) == Some(LevelFilter::Off),
        same_ignoring_case(text, "error"@) ==> filter_named(text) == Some(LevelFilter::Error),
        same_ignoring_case(text, "warn"@) ==> filter_named(text) == Some(LevelFilter::Warn),
        same_ignoring_case(text, "info"@) ==> filter_named(text) == Some(LevelFilter::Info),
        same_ignoring_case(text, "debug"@) ==> filter_named(text) == Some(LevelFilter::Debug),
        same_ignoring_case(text, "trace"@) ==> filter_named(text) == Some(LevelFilter::Trace),
{
    reveal_strlit("off");
    reveal_strlit("OFF");
    reveal_strlit("error");
    reveal_strlit("ERROR");
    reveal_strlit("warn");
    reveal_strlit("WARN");
    reveal_strlit("info");
    reveal_strlit("INFO");
    reveal_strlit("debug");
    reveal_strlit("DEBUG");
    reveal_strlit("trace");
    reveal_strlit("TRACE");
    if text.len() > 0 {
        assert(text[0] == text[0]);
        let lower = ascii_lower(text[0]);
        assert(same_ignoring_case(text, "ERROR"@) ==> ascii_lower("ERROR"@[0]) == lower);
        assert(same_ignoring_case(text, "DEBUG"@) ==> ascii_lower("DEBUG"@[0]) == lower);
        assert(same_ignoring_case(text, "WARN"@) ==> ascii_lower("WARN"@[0]) == lower);
        assert(same_ignoring_case(text, "INFO"@) ==> ascii_lower("INFO"@[0]) == lower);
        assert(same_ignoring_case(text, "TRACE"@) ==> ascii_lower("TRACE"@[0]) == lower);
    }
}

/// A record is forwarded exactly where it is the bridge's own and severe enough:
/// nothing passes a filter that is off, and no record of a decoder passes any.
pub proof fn only_own_records_pass(level: Level, filter: LevelFilter, target: Seq<char>)
    ensures
        !bridge_target(target) ==> !record_forwarded(level, filter, target),
        !record_forwarded(level, LevelFilter::Off, target),
        bridge_target(target) ==> record_forwarded(level, LevelFilter::Trace, target),
        bridge_target(target) ==> (record_forwarded(level, LevelFilter::Warn, target) <==> level
            == Level::Error || level == Level::Warn),
{
}

/// An unfolding is called what the layout that it restores is called, or nothing
/// where that has no name.
pub proof fn unfoldings_are_called_by_their_layout(
    before: DtsAuroState,
    after: DtsAuroState,
    frame: DecodedFrame,
    speakers: Seq<usize>,
    verdict: Verdict,
    outs: (Seq<DecodedFrame>, Seq<DecodedFrame>),
    start: UnfoldStart,
)
    requires
        frame_routed(
            before,
            after,
            frame,
            speakers,
            verdict,
            outs.0,
            outs.1,
            Routed::Started(start),
        ),
    ensures
        after.phase matches Phase::Unfolding { presentation, .. } && match presentation_of(
            verdict.latched->0.original.0,
        ) {
            Some(name) => presentation@ == name,
            None => presentation@.len() == 0,
        },
{
}

/// A target is the bridge's own exactly where it is its name, or goes on behind
/// two colons.
pub proof fn own_targets_are_told_by_their_name(target: Seq<char>)
    ensures
        ({
            let own = "harletty_bridge"@;
            let end = own.len() as int;
            bridge_target(target) <==> target == own || target.len() >= end + 2 && target.take(
                end,
            ) == own && target[end] == ':' && target[end + 1] == ':'
        }),
{
    reveal_strlit("harletty_bridge");
    reveal_strlit("harletty_bridge::");
    let own = "harletty_bridge"@;
    let inner = "harletty_bridge::"@;
    let end = own.len() as int;
    assert(inner =~= own + seq![':', ':']);
    if target.len() >= inner.len() {
        let head = target.subrange(0, inner.len() as int);
        assert(head.take(end) =~= target.take(end));
        assert(head[end] == target[end] && head[end + 1] == target[end + 1]);
        if target.take(end) == own && target[end] == ':' && target[end + 1] == ':' {
            assert forall|place: int| 0 <= place < head.len() implies head[place] == inner[place] by {
                if place < end {
                    assert(head.take(end)[place] == head[place]);
                }
            }
            assert(head =~= inner);
        }
        if head == inner {
            assert(inner.take(end) =~= own);
        }
    }
}

/// White space is what Unicode says it is: the controls from tab to carriage
/// return, the space, the next-line control, and the spaces and separators of the
/// other blocks.
pub proof fn white_space_is_that_of_unicode(letter: char)
    ensures
        is_space(letter) <==> {
            let code = letter as u32;
            ||| 9 <= code <= 13
            ||| code == 32
            ||| code == 133
            ||| code == 160
            ||| code == 5760
            ||| 8192 <= code <= 8202
            ||| code == 8232
            ||| code == 8233
            ||| code == 8239
            ||| code == 8287
            ||| code == 12288
        },
{
}

} // verus!
