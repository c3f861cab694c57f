//! Equal results of equal units, where what is handed in gives one result for
//! each input.

use crate::eac3::frame::{CoreModel, CorePcmFrame};
use crate::eac3::pcm::{
    always_shows, history_cleared, joc_at, objects_begun, objects_pushed,
    repeated_units_decode_as_new, unit_finished, unit_rebuilt, unit_settled, unit_started,
    AccessUnitInfo, ObjectPcmDecoder, ObjectPcmPushResult, ObjectStart,
};
use crate::eac3::qmf::{analysed, channel_analysed, gathered};
use crate::eac3::reconstruction::{
    frame_planned, FramePlan, JocObjectDecoderState, ObjectMix,
};
use crate::eac3::synthesis::{
    cold_frames_are_rebuilt_alike, frame_decoded, object_mixed, runs, same_history, same_mix,
    slot_decoded, slot_samples, slot_traced, slots_decoded, slots_traced, sound_of, sound_result,
    with_block,
};
use crate::eac3::types::{JocPayload, ParseError};
use crate::level::Level;
use vstd::prelude::*;

verus! {

/// `analyse` makes one thing of each window.
pub open spec fn analyses_alike<S, B, A>(analyse: A) -> bool where A: Fn(&[S]) -> B {
    forall|left: &[S], right: &[S], one: B, other: B|
        left@ == right@ && #[trigger] analyse.ensures((left,), one)
            && #[trigger] analyse.ensures((right,), other) ==> one == other
}

/// `mix` makes one thing of each analysis, mixing and timeslot.
pub open spec fn mixes_alike<S, B, M>(mix: M) -> bool where
    M: Fn(&Vec<B>, &ObjectMix, usize) -> [S; 128],
 {
    forall|
        left: &Vec<B>,
        right: &Vec<B>,
        left_mix: &ObjectMix,
        right_mix: &ObjectMix,
        slot: usize,
        one: [S; 128],
        other: [S; 128],
    |
        left@ == right@ && same_mix(*left_mix, *right_mix) && #[trigger] mix.ensures(
            (left, left_mix, slot),
            one,
        ) && #[trigger] mix.ensures((right, right_mix, slot), other) ==> one@ == other@
}

/// `gather` makes one thing of each window and gain.
pub open spec fn gathers_alike<S, G, Y>(gather: Y) -> bool where Y: Fn(&[S], &G) -> [S; 64] {
    forall|left: &[S], right: &[S], gain: G, one: [S; 64], other: [S; 64]|
        left@ == right@ && #[trigger] gather.ensures((left, &gain), one)
            && #[trigger] gather.ensures((right, &gain), other) ==> one@ == other@
}

/// The timeslots of two states with the same history and the same mixing leave
/// the same history and the same sound.
proof fn lemma_slot_alike<S: Copy, G, B, A, M, Y>(
    left: JocObjectDecoderState<S>,
    left_after: JocObjectDecoderState<S>,
    left_plan: FramePlan,
    right: JocObjectDecoderState<S>,
    right_after: JocObjectDecoderState<S>,
    right_plan: FramePlan,
    core: CoreModel<S>,
    joc: JocPayload<G>,
    slot: int,
    sound: Seq<Seq<S>>,
    left_sound: Seq<Seq<S>>,
    right_sound: Seq<Seq<S>>,
    analyse: A,
    mix: M,
    gather: Y,
) where
    A: Fn(&[S]) -> B,
    M: Fn(&Vec<B>, &ObjectMix, usize) -> [S; 128],
    Y: Fn(&[S], &G) -> [S; 64],

    requires
        analyses_alike(analyse),
        mixes_alike(mix),
        gathers_alike(gather),
        ready_alike(left, right, joc),
        left_plan.input_indices@ == right_plan.input_indices@,
        sound.len() == joc.object_count,
        slot_decoded(
            left,
            left_after,
            core,
            joc,
            left_plan,
            slot,
            sound,
            left_sound,
            analyse,
            mix,
            gather,
        ),
        slot_decoded(
            right,
            right_after,
            core,
            joc,
            right_plan,
            slot,
            sound,
            right_sound,
            analyse,
            mix,
            gather,
        ),
    ensures
        ready_alike(left_after, right_after, joc),
        left_sound == right_sound,
        left_sound.len() == joc.object_count,
{
    let left_analysis = choose|analysis: Vec<B>|
        {
            &&& #[trigger] analysis@.len() == joc.channel_count
            &&& forall|channel: int|
                0 <= channel < joc.channel_count ==> channel_analysed(
                    left.forward_qmf@[channel],
                    left_after.forward_qmf@[channel],
                    slot_samples(
                        core,
                        left_plan.input_indices@[channel] as int,
                        slot,
                    ),
                    analyse,
                    #[trigger] analysis@[channel],
                )
            &&& forall|object: int|
                0 <= object < joc.object_count ==> object_mixed(
                    left,
                    left_after,
                    joc,
                    left.last_frame@[object],
                    slot,
                    object,
                    analysis,
                    sound[object],
                    #[trigger] left_sound[object],
                    mix,
                    gather,
                )
        };
    let right_analysis = choose|analysis: Vec<B>|
        {
            &&& #[trigger] analysis@.len() == joc.channel_count
            &&& forall|channel: int|
                0 <= channel < joc.channel_count ==> channel_analysed(
                    right.forward_qmf@[channel],
                    right_after.forward_qmf@[channel],
                    slot_samples(
                        core,
                        right_plan.input_indices@[channel] as int,
                        slot,
                    ),
                    analyse,
                    #[trigger] analysis@[channel],
                )
            &&& forall|object: int|
                0 <= object < joc.object_count ==> object_mixed(
                    right,
                    right_after,
                    joc,
                    right.last_frame@[object],
                    slot,
                    object,
                    analysis,
                    sound[object],
                    #[trigger] right_sound[object],
                    mix,
                    gather,
                )
        };
    assert forall|channel: int| 0 <= channel < joc.channel_count implies left_analysis@[channel]
        == right_analysis@[channel] && (
    #[trigger] left_after.forward_qmf@[channel]).forward.window()
        == right_after.forward_qmf@[channel].forward.window() by {
        let one = left_analysis@[channel];
        let other = right_analysis@[channel];
        assert(left.forward_qmf@[channel].forward.window()
            == right.forward_qmf@[channel].forward.window());
        let window = left_after.forward_qmf@[channel].forward.window();
        assert(analysed(analyse, window, one));
        assert(analysed(analyse, window, other));
    }
    assert(left_analysis@ =~= right_analysis@) by {
        assert forall|channel: int| 0 <= channel < joc.channel_count implies left_analysis@[channel]
            == right_analysis@[channel] by {
            assert(left_after.forward_qmf@[channel].forward.window()
                == right_after.forward_qmf@[channel].forward.window());
        }
    }
    assert forall|object: int| 0 <= object < joc.object_count implies {
        &&& left_sound[object] == right_sound[object]
        &&& left_after.inverse_history@[object] == right_after.inverse_history@[object]
        &&& (#[trigger] left_after.inverse_qmf@[object]).inverse.window()
            == right_after.inverse_qmf@[object].inverse.window()
    } by {
        let one = left_sound[object];
        let other = right_sound[object];
        lemma_object_alike(
            left,
            left_after,
            right,
            right_after,
            joc,
            slot,
            object,
            left_analysis,
            right_analysis,
            sound[object],
            one,
            other,
            mix,
            gather,
        );
    }
    assert(left_after.inverse_history@ =~= right_after.inverse_history@) by {
        assert forall|object: int| 0 <= object < joc.object_count implies
            left_after.inverse_history@[object] == right_after.inverse_history@[object] by {
            assert(left_after.inverse_qmf@[object].inverse.window()
                == right_after.inverse_qmf@[object].inverse.window());
        }
    }
    assert(left_sound =~= right_sound) by {
        assert forall|object: int| 0 <= object < joc.object_count implies left_sound[object]
            == right_sound[object] by {
            assert(left_after.inverse_qmf@[object].inverse.window()
                == right_after.inverse_qmf@[object].inverse.window());
        }
    }
}

/// An object goes on alike from the same history and mixing.
proof fn lemma_object_alike<S: Copy, G, B, M, Y>(
    left: JocObjectDecoderState<S>,
    left_after: JocObjectDecoderState<S>,
    right: JocObjectDecoderState<S>,
    right_after: JocObjectDecoderState<S>,
    joc: JocPayload<G>,
    slot: int,
    object: int,
    left_analysis: Vec<B>,
    right_analysis: Vec<B>,
    sound: Seq<S>,
    left_sound: Seq<S>,
    right_sound: Seq<S>,
    mix: M,
    gather: Y,
) where M: Fn(&Vec<B>, &ObjectMix, usize) -> [S; 128], Y: Fn(&[S], &G) -> [S; 64]
    requires
        mixes_alike(mix),
        gathers_alike(gather),
        0 <= object < joc.object_count,
        ready_alike(left, right, joc),
        left_analysis@ == right_analysis@,
        object_mixed(
            left,
            left_after,
            joc,
            left.last_frame@[object],
            slot,
            object,
            left_analysis,
            sound,
            left_sound,
            mix,
            gather,
        ),
        object_mixed(
            right,
            right_after,
            joc,
            right.last_frame@[object],
            slot,
            object,
            right_analysis,
            sound,
            right_sound,
            mix,
            gather,
        ),
    ensures
        left_sound == right_sound,
        left_after.inverse_history@[object] == right_after.inverse_history@[object],
        left_after.inverse_qmf@[object].inverse.window()
            == right_after.inverse_qmf@[object].inverse.window(),
{
    assert(left.inverse_qmf@[object].inverse.window()
        == right.inverse_qmf@[object].inverse.window());
    assert(same_mix(left.last_frame@[object], right.last_frame@[object]));
    if runs(left, joc, object) {
        let (left_block, left_output) = choose|block: [S; 128], output: [S; 64]|
            {
                &&& #[trigger] mix.ensures(
                    (&left_analysis, &left.last_frame@[object], slot as usize),
                    block,
                )
                &&& left_after.inverse_qmf@[object].inverse.window() == block@
                    + left.inverse_qmf@[object].inverse.window().take(1280 - 128)
                &&& #[trigger] gathered(
                    gather,
                    left_after.inverse_qmf@[object].inverse.window(),
                    joc.gain,
                    output,
                )
                &&& left_sound == with_block(sound, slot * 64, output@)
            };
        let (right_block, right_output) = choose|block: [S; 128], output: [S; 64]|
            {
                &&& #[trigger] mix.ensures(
                    (&right_analysis, &right.last_frame@[object], slot as usize),
                    block,
                )
                &&& right_after.inverse_qmf@[object].inverse.window() == block@
                    + right.inverse_qmf@[object].inverse.window().take(1280 - 128)
                &&& #[trigger] gathered(
                    gather,
                    right_after.inverse_qmf@[object].inverse.window(),
                    joc.gain,
                    output,
                )
                &&& right_sound == with_block(sound, slot * 64, output@)
            };
        assert(left_block@ == right_block@);
        assert(left_output@ == right_output@);
    }
}

/// Two states are set up alike for a frame.
pub open spec fn ready_alike<S: Copy, G>(
    left: JocObjectDecoderState<S>,
    right: JocObjectDecoderState<S>,
    joc: JocPayload<G>,
) -> bool {
    &&& same_history(left, right)
    &&& left.silence == right.silence
    &&& left.forward_qmf@.len() == joc.channel_count
    &&& left.inverse_qmf@.len() == joc.object_count
    &&& left.inverse_history@.len() == joc.object_count
    &&& left.last_frame@.len() == joc.object_count
    &&& right.last_frame@.len() == joc.object_count
    &&& forall|object: int|
        0 <= object < joc.object_count ==> same_mix(
            #[trigger] left.last_frame@[object],
            right.last_frame@[object],
        )
}

/// Two runs of timeslots that start alike stay alike.
proof fn lemma_traces_alike<S: Copy, G, B, A, M, Y>(
    left: Seq<JocObjectDecoderState<S>>,
    left_sounds: Seq<Seq<Seq<S>>>,
    left_plan: FramePlan,
    right: Seq<JocObjectDecoderState<S>>,
    right_sounds: Seq<Seq<Seq<S>>>,
    right_plan: FramePlan,
    core: CoreModel<S>,
    joc: JocPayload<G>,
    slots: int,
    slot: int,
    analyse: A,
    mix: M,
    gather: Y,
) where
    A: Fn(&[S]) -> B,
    M: Fn(&Vec<B>, &ObjectMix, usize) -> [S; 128],
    Y: Fn(&[S], &G) -> [S; 64],

    requires
        analyses_alike(analyse),
        mixes_alike(mix),
        gathers_alike(gather),
        0 <= slot <= slots,
        left_plan.input_indices@ == right_plan.input_indices@,
        left_plan.timeslots == right_plan.timeslots,
        slots_traced(
            left,
            left_sounds,
            slots,
            left[0],
            core,
            joc,
            left_plan,
            analyse,
            mix,
            gather,
        ),
        slots_traced(
            right,
            right_sounds,
            slots,
            right[0],
            core,
            joc,
            right_plan,
            analyse,
            mix,
            gather,
        ),
        ready_alike(left[0], right[0], joc),
    ensures
        ready_alike(left[slot], right[slot], joc),
        left_sounds[slot] == right_sounds[slot],
        left_sounds[slot].len() == joc.object_count,
        left[slot].silence == left[0].silence,
    decreases slot,
{
    if slot > 0 {
        lemma_traces_alike(
            left,
            left_sounds,
            left_plan,
            right,
            right_sounds,
            right_plan,
            core,
            joc,
            slots,
            slot - 1,
            analyse,
            mix,
            gather,
        );
        assert(slot_traced(
            left,
            left_sounds,
            slot - 1,
            core,
            joc,
            left_plan,
            analyse,
            mix,
            gather,
        ));
        assert(slot_traced(
            right,
            right_sounds,
            slot - 1,
            core,
            joc,
            right_plan,
            analyse,
            mix,
            gather,
        ));
        lemma_slot_alike(
            left[slot - 1],
            left[slot],
            left_plan,
            right[slot - 1],
            right[slot],
            right_plan,
            core,
            joc,
            slot - 1,
            left_sounds[slot - 1],
            left_sounds[slot],
            right_sounds[slot],
            analyse,
            mix,
            gather,
        );
    }
}

/// A frame that starts without history comes out alike in any two states, and
/// silence stays what it was.
proof fn lemma_frames_alike<S: Copy, G, B, A, M, Y>(
    left: JocObjectDecoderState<S>,
    left_after: JocObjectDecoderState<S>,
    left_result: Result<Seq<Seq<S>>, ParseError>,
    right: JocObjectDecoderState<S>,
    right_after: JocObjectDecoderState<S>,
    right_result: Result<Seq<Seq<S>>, ParseError>,
    core: CoreModel<S>,
    joc: JocPayload<G>,
    analyse: A,
    mix: M,
    gather: Y,
) where
    A: Fn(&[S]) -> B,
    M: Fn(&Vec<B>, &ObjectMix, usize) -> [S; 128],
    Y: Fn(&[S], &G) -> [S; 64],

    requires
        analyses_alike(analyse),
        mixes_alike(mix),
        gathers_alike(gather),
        left.cold(),
        right.cold(),
        left.silence == right.silence,
        frame_decoded(left, left_after, core, joc, analyse, mix, gather, left_result),
        frame_decoded(right, right_after, core, joc, analyse, mix, gather, right_result),
    ensures
        left_result == right_result,
        left_result is Ok ==> left_after.silence == left.silence,
{
    let (left_planned, left_plan) = choose|
        planned: JocObjectDecoderState<S>,
        plan: Result<FramePlan, ParseError>,
    |
        {
            &&& #[trigger] frame_planned(left, planned, core, joc, plan)
            &&& match plan {
                Err(reason) => {
                    &&& left_result matches Err(error) && error == reason
                    &&& left_after == planned
                },
                Ok(plan) => {
                    &&& left_result matches Ok(sound)
                    &&& slots_decoded(
                        planned,
                        left_after,
                        core,
                        joc,
                        plan,
                        sound,
                        analyse,
                        mix,
                        gather,
                    )
                },
            }
        };
    let (right_planned, right_plan) = choose|
        planned: JocObjectDecoderState<S>,
        plan: Result<FramePlan, ParseError>,
    |
        {
            &&& #[trigger] frame_planned(right, planned, core, joc, plan)
            &&& match plan {
                Err(reason) => {
                    &&& right_result matches Err(error) && error == reason
                    &&& right_after == planned
                },
                Ok(plan) => {
                    &&& right_result matches Ok(sound)
                    &&& slots_decoded(
                        planned,
                        right_after,
                        core,
                        joc,
                        plan,
                        sound,
                        analyse,
                        mix,
                        gather,
                    )
                },
            }
        };
    if left_plan is Ok {
        let one = left_plan->Ok_0;
        let other = right_plan->Ok_0;
        cold_frames_are_rebuilt_alike(
            left,
            left_planned,
            one,
            right,
            right_planned,
            other,
            core,
            joc,
        );
        let (left_states, left_sounds) = choose|
            states: Seq<JocObjectDecoderState<S>>,
            sounds: Seq<Seq<Seq<S>>>,
        |
            {
                &&& #[trigger] slots_traced(
                    states,
                    sounds,
                    one.timeslots as int,
                    left_planned,
                    core,
                    joc,
                    one,
                    analyse,
                    mix,
                    gather,
                )
                &&& states.last() == left_after
                &&& sounds.last() == left_result->Ok_0
            };
        let (right_states, right_sounds) = choose|
            states: Seq<JocObjectDecoderState<S>>,
            sounds: Seq<Seq<Seq<S>>>,
        |
            {
                &&& #[trigger] slots_traced(
                    states,
                    sounds,
                    other.timeslots as int,
                    right_planned,
                    core,
                    joc,
                    other,
                    analyse,
                    mix,
                    gather,
                )
                &&& states.last() == right_after
                &&& sounds.last() == right_result->Ok_0
            };
        assert(ready_alike(left_planned, right_planned, joc));
        lemma_traces_alike(
            left_states,
            left_sounds,
            one,
            right_states,
            right_sounds,
            other,
            core,
            joc,
            one.timeslots as int,
            one.timeslots as int,
            analyse,
            mix,
            gather,
        );
    }
}

/// Reading, decoding and starting over each give one result for each input.
pub open spec fn reads_alike<S, G, O, H, F: Fn() -> H, I>(
    access_unit: &[u8],
    level: Level,
    fresh: F,
    inspect: I,
    core: spec_fn(AccessUnitInfo<G, O>, H, H, Result<CorePcmFrame<S>, ParseError>) -> bool,
) -> bool where I: Fn(&[u8], Level, H) -> (H, Result<AccessUnitInfo<G, O>, ParseError>) {
    &&& forall|one: H, other: H| #[trigger]
        fresh.ensures((), one) && #[trigger] fresh.ensures((), other) ==> one == other
    &&& forall|
        history: H,
        one: (H, Result<AccessUnitInfo<G, O>, ParseError>),
        other: (H, Result<AccessUnitInfo<G, O>, ParseError>),
    | #[trigger]
        inspect.ensures((access_unit, level, history), one) && #[trigger] inspect.ensures(
            (access_unit, level, history),
            other,
        ) ==> one == other
    &&& forall|
        info: AccessUnitInfo<G, O>,
        read: H,
        one: H,
        other: H,
        one_core: Result<CorePcmFrame<S>, ParseError>,
        other_core: Result<CorePcmFrame<S>, ParseError>,
    | #[trigger]
        core(info, read, one, one_core) && #[trigger] core(info, read, other, other_core) ==> one
            == other && one_core == other_core
}

/// Two results agree but for the count of frames.
pub open spec fn same_objects<S, G, O>(
    left: Result<Option<ObjectPcmPushResult<S, G, O>>, ParseError>,
    right: Result<Option<ObjectPcmPushResult<S, G, O>>, ParseError>,
) -> bool {
    match (left, right) {
        (Err(one), Err(other)) => one == other,
        (Ok(None), Ok(None)) => true,
        (Ok(Some(one)), Ok(Some(other))) => {
            &&& one.info == other.info
            &&& one.pcm.core@ == other.pcm.core@
            &&& sound_of(one.pcm.object_channels@) == sound_of(other.pcm.object_channels@)
            &&& one.pcm.object_active@ == other.pcm.object_active@
            &&& one.pcm.joc_index == other.pcm.joc_index
            &&& one.pcm.oamd_indices@ == other.pcm.oamd_indices@
        },
        _ => false,
    }
}

/// Two decoders without history that are set up alike.
pub open spec fn cold_alike<S: Copy, H, F: Fn() -> H>(
    left: ObjectPcmDecoder<S, H, F>,
    right: ObjectPcmDecoder<S, H, F>,
) -> bool {
    &&& left.cold()
    &&& right.cold()
    &&& left.fresh == right.fresh
    &&& left.debug_log_level == right.debug_log_level
    &&& left.core_delay.silence == right.core_delay.silence
    &&& left.joc_state.silence == right.joc_state.silence
}

/// Two decoders without history take a unit in alike.
proof fn lemma_begun_alike<S: Copy, G, O, H, F: Fn() -> H, I>(
    left: ObjectPcmDecoder<S, H, F>,
    left_after: ObjectPcmDecoder<S, H, F>,
    left_started: Result<Option<ObjectStart<S, G, O>>, ParseError>,
    right: ObjectPcmDecoder<S, H, F>,
    right_after: ObjectPcmDecoder<S, H, F>,
    right_started: Result<Option<ObjectStart<S, G, O>>, ParseError>,
    access_unit: &[u8],
    inspect: I,
    core: spec_fn(AccessUnitInfo<G, O>, H, H, Result<CorePcmFrame<S>, ParseError>) -> bool,
) where I: Fn(&[u8], Level, H) -> (H, Result<AccessUnitInfo<G, O>, ParseError>)
    requires
        cold_alike(left, right),
        reads_alike(access_unit, left.debug_log_level, left.fresh, inspect, core),
        objects_begun(left, left_after, access_unit, inspect, core, left_started),
        objects_begun(right, right_after, access_unit, inspect, core, right_started),
    ensures
        left_started == right_started,
        left_started matches Ok(Some(start)) ==> {
            &&& left_after.joc_state.cold()
            &&& right_after.joc_state.cold()
            &&& left_after.joc_state.silence == left.joc_state.silence
            &&& right_after.joc_state.silence == right.joc_state.silence
            &&& left_after.core_delay == left.core_delay
            &&& right_after.core_delay == right.core_delay
            &&& left_after.frames_seen == left.frames_seen
            &&& right_after.frames_seen == right.frames_seen
            &&& left_after.fresh == left.fresh
            &&& left_after.debug_log_level == left.debug_log_level
        },
{
    let (left_read, left_settled) = choose|
        read: ObjectPcmDecoder<S, H, F>,
        settled: Result<Option<(AccessUnitInfo<G, O>, usize)>, ParseError>,
    |
        {
            &&& #[trigger] unit_settled(left, read, access_unit, inspect, settled)
            &&& match settled {
                Err(reason) => {
                    &&& left_started matches Err(error) && error == reason
                    &&& left_after == read
                },
                Ok(None) => left_started matches Ok(None) && left_after == read,
                Ok(Some((info, index))) => exists|
                    history: H,
                    decoded: Result<CorePcmFrame<S>, ParseError>,
                |
                    {
                        &&& #[trigger] core(info, read.history, history, decoded)
                        &&& unit_started(
                            ObjectPcmDecoder { history, ..read },
                            left_after,
                            info,
                            index as int,
                            decoded,
                            left_started,
                        )
                    },
            }
        };
    let (right_read, right_settled) = choose|
        read: ObjectPcmDecoder<S, H, F>,
        settled: Result<Option<(AccessUnitInfo<G, O>, usize)>, ParseError>,
    |
        {
            &&& #[trigger] unit_settled(right, read, access_unit, inspect, settled)
            &&& match settled {
                Err(reason) => {
                    &&& right_started matches Err(error) && error == reason
                    &&& right_after == read
                },
                Ok(None) => right_started matches Ok(None) && right_after == read,
                Ok(Some((info, index))) => exists|
                    history: H,
                    decoded: Result<CorePcmFrame<S>, ParseError>,
                |
                    {
                        &&& #[trigger] core(info, read.history, history, decoded)
                        &&& unit_started(
                            ObjectPcmDecoder { history, ..read },
                            right_after,
                            info,
                            index as int,
                            decoded,
                            right_started,
                        )
                    },
            }
        };
    assert(left.history == right.history);
    assert(left_settled == right_settled);
    if let Ok(Some((info, index))) = left_settled {
        assert(left_read.history == right_read.history);
        assert(left_read.core_delay == left.core_delay);
    }
}

/// Decoders without history that are set up alike decode a unit alike.
pub proof fn cold_decoders_decode_alike<S: Copy, G, O, H, F: Fn() -> H, B, I, A, M, Y>(
    left: ObjectPcmDecoder<S, H, F>,
    left_after: ObjectPcmDecoder<S, H, F>,
    left_result: Result<Option<ObjectPcmPushResult<S, G, O>>, ParseError>,
    right: ObjectPcmDecoder<S, H, F>,
    right_after: ObjectPcmDecoder<S, H, F>,
    right_result: Result<Option<ObjectPcmPushResult<S, G, O>>, ParseError>,
    access_unit: &[u8],
    inspect: I,
    core: spec_fn(AccessUnitInfo<G, O>, H, H, Result<CorePcmFrame<S>, ParseError>) -> bool,
    analyse: A,
    mix: M,
    gather: Y,
) where
    I: Fn(&[u8], Level, H) -> (H, Result<AccessUnitInfo<G, O>, ParseError>),
    A: Fn(&[S]) -> B,
    M: Fn(&Vec<B>, &ObjectMix, usize) -> [S; 128],
    Y: Fn(&[S], &G) -> [S; 64],

    requires
        analyses_alike(analyse),
        mixes_alike(mix),
        gathers_alike(gather),
        cold_alike(left, right),
        reads_alike(access_unit, left.debug_log_level, left.fresh, inspect, core),
        objects_pushed(
            left,
            left_after,
            access_unit,
            inspect,
            core,
            analyse,
            mix,
            gather,
            left_result,
        ),
        objects_pushed(
            right,
            right_after,
            access_unit,
            inspect,
            core,
            analyse,
            mix,
            gather,
            right_result,
        ),
    ensures
        same_objects(left_result, right_result),
        left_result matches Ok(Some(push)) ==> {
            &&& push.frames_seen == left.frames_seen + 1
            &&& left_after.frames_seen == push.frames_seen
            &&& left_after.fresh == left.fresh
            &&& left_after.debug_log_level == left.debug_log_level
            &&& left_after.core_delay.silence == left.core_delay.silence
            &&& left_after.joc_state.silence == left.joc_state.silence
        },
{
    let (left_middle, left_started) = choose|
        middle: ObjectPcmDecoder<S, H, F>,
        started: Result<Option<ObjectStart<S, G, O>>, ParseError>,
    |
        {
            &&& #[trigger] objects_begun(left, middle, access_unit, inspect, core, started)
            &&& match started {
                Err(reason) => {
                    &&& left_result matches Err(error) && error == reason
                    &&& left_after == middle
                },
                Ok(None) => left_result matches Ok(None) && left_after == middle,
                Ok(Some(start)) => unit_rebuilt(
                    middle,
                    left_after,
                    start,
                    analyse,
                    mix,
                    gather,
                    left_result,
                ),
            }
        };
    let (right_middle, right_started) = choose|
        middle: ObjectPcmDecoder<S, H, F>,
        started: Result<Option<ObjectStart<S, G, O>>, ParseError>,
    |
        {
            &&& #[trigger] objects_begun(right, middle, access_unit, inspect, core, started)
            &&& match started {
                Err(reason) => {
                    &&& right_result matches Err(error) && error == reason
                    &&& right_after == middle
                },
                Ok(None) => right_result matches Ok(None) && right_after == middle,
                Ok(Some(start)) => unit_rebuilt(
                    middle,
                    right_after,
                    start,
                    analyse,
                    mix,
                    gather,
                    right_result,
                ),
            }
        };
    lemma_begun_alike(
        left,
        left_middle,
        left_started,
        right,
        right_middle,
        right_started,
        access_unit,
        inspect,
        core,
    );
    if let Ok(Some(start)) = left_started {
        lemma_rebuilt_alike(
            left_middle,
            left_after,
            left_result,
            right_middle,
            right_after,
            right_result,
            start,
            analyse,
            mix,
            gather,
        );
    }
}

/// The objects of a unit are rebuilt alike from cold states.
proof fn lemma_rebuilt_alike<S: Copy, G, O, H, F: Fn() -> H, B, A, M, Y>(
    left: ObjectPcmDecoder<S, H, F>,
    left_after: ObjectPcmDecoder<S, H, F>,
    left_result: Result<Option<ObjectPcmPushResult<S, G, O>>, ParseError>,
    right: ObjectPcmDecoder<S, H, F>,
    right_after: ObjectPcmDecoder<S, H, F>,
    right_result: Result<Option<ObjectPcmPushResult<S, G, O>>, ParseError>,
    start: ObjectStart<S, G, O>,
    analyse: A,
    mix: M,
    gather: Y,
) where
    A: Fn(&[S]) -> B,
    M: Fn(&Vec<B>, &ObjectMix, usize) -> [S; 128],
    Y: Fn(&[S], &G) -> [S; 64],

    requires
        analyses_alike(analyse),
        mixes_alike(mix),
        gathers_alike(gather),
        left.joc_state.cold(),
        right.joc_state.cold(),
        left.joc_state.silence == right.joc_state.silence,
        left.core_delay@ == right.core_delay@,
        unit_rebuilt(left, left_after, start, analyse, mix, gather, left_result),
        unit_rebuilt(right, right_after, start, analyse, mix, gather, right_result),
    ensures
        same_objects(left_result, right_result),
        left_result matches Ok(Some(push)) ==> {
            &&& push.frames_seen == left.frames_seen + 1
            &&& left_after.frames_seen == push.frames_seen
            &&& left_after.fresh == left.fresh
            &&& left_after.debug_log_level == left.debug_log_level
            &&& left_after.core_delay.silence == left.core_delay.silence
            &&& left_after.joc_state.silence == left.joc_state.silence
        },
{
    let joc = joc_at(start.info.payloads@, start.joc_index as int);
    let (left_rebuilt, left_objects) = choose|
        rebuilt: JocObjectDecoderState<S>,
        objects: Result<Vec<Vec<S>>, ParseError>,
    |
        {
            &&& #[trigger] frame_decoded(
                left.joc_state,
                rebuilt,
                start.core@,
                joc,
                analyse,
                mix,
                gather,
                sound_result(objects),
            )
            &&& exists|finished: Result<ObjectPcmPushResult<S, G, O>, ParseError>|
                {
                    &&& #[trigger] unit_finished(
                        ObjectPcmDecoder { joc_state: rebuilt, ..left },
                        left_after,
                        start,
                        objects,
                        finished,
                    )
                    &&& match finished {
                        Ok(push) => left_result matches Ok(Some(found)) && found == push,
                        Err(reason) => left_result matches Err(error) && error == reason,
                    }
                }
        };
    let (right_rebuilt, right_objects) = choose|
        rebuilt: JocObjectDecoderState<S>,
        objects: Result<Vec<Vec<S>>, ParseError>,
    |
        {
            &&& #[trigger] frame_decoded(
                right.joc_state,
                rebuilt,
                start.core@,
                joc,
                analyse,
                mix,
                gather,
                sound_result(objects),
            )
            &&& exists|finished: Result<ObjectPcmPushResult<S, G, O>, ParseError>|
                {
                    &&& #[trigger] unit_finished(
                        ObjectPcmDecoder { joc_state: rebuilt, ..right },
                        right_after,
                        start,
                        objects,
                        finished,
                    )
                    &&& match finished {
                        Ok(push) => right_result matches Ok(Some(found)) && found == push,
                        Err(reason) => right_result matches Err(error) && error == reason,
                    }
                }
        };
    lemma_frames_alike(
        left.joc_state,
        left_rebuilt,
        sound_result(left_objects),
        right.joc_state,
        right_rebuilt,
        sound_result(right_objects),
        start.core@,
        joc,
        analyse,
        mix,
        gather,
    );
    if let Ok(Some(one)) = left_result {
        if let Ok(Some(other)) = right_result {
            assert(one.pcm.object_active@ =~= other.pcm.object_active@);
            assert(one.pcm.oamd_indices@ =~= other.pcm.oamd_indices@);
            assert(left_after.core_delay@.silence == left.core_delay@.silence);
        }
    }
}

/// A unit that is pushed twice comes out the same both times, objects and core,
/// from a decoder that starts without history: its counter cannot follow itself,
/// so the second push starts cold too. Both are counted.
pub proof fn repeated_units_come_out_alike<S: Copy, G, O, H, F: Fn() -> H, B, I, A, M, Y>(
    before: ObjectPcmDecoder<S, H, F>,
    between: ObjectPcmDecoder<S, H, F>,
    after: ObjectPcmDecoder<S, H, F>,
    access_unit: &[u8],
    inspect: I,
    core: spec_fn(AccessUnitInfo<G, O>, H, H, Result<CorePcmFrame<S>, ParseError>) -> bool,
    analyse: A,
    mix: M,
    gather: Y,
    first: ObjectPcmPushResult<S, G, O>,
    second: Result<Option<ObjectPcmPushResult<S, G, O>>, ParseError>,
    counter: u16,
) where
    I: Fn(&[u8], Level, H) -> (H, Result<AccessUnitInfo<G, O>, ParseError>),
    A: Fn(&[S]) -> B,
    M: Fn(&Vec<B>, &ObjectMix, usize) -> [S; 128],
    Y: Fn(&[S], &G) -> [S; 64],

    requires
        analyses_alike(analyse),
        mixes_alike(mix),
        gathers_alike(gather),
        reads_alike(access_unit, before.debug_log_level, before.fresh, inspect, core),
        always_shows(access_unit, before.debug_log_level, inspect, counter),
        before.cold(),
        objects_pushed(
            before,
            between,
            access_unit,
            inspect,
            core,
            analyse,
            mix,
            gather,
            Ok(Some(first)),
        ),
        objects_pushed(
            between,
            after,
            access_unit,
            inspect,
            core,
            analyse,
            mix,
            gather,
            second,
        ),
    ensures
        same_objects(Ok(Some(first)), second),
        second matches Ok(Some(push)) && {
            &&& first.frames_seen == before.frames_seen + 1
            &&& push.frames_seen == before.frames_seen + 2
            &&& after.frames_seen == before.frames_seen + 2
        },
{
    repeated_units_decode_as_new(
        before,
        between,
        after,
        access_unit,
        inspect,
        core,
        analyse,
        mix,
        gather,
        first,
        second,
        counter,
    );
    let new = choose|new: ObjectPcmDecoder<S, H, F>|
        {
            &&& #[trigger] history_cleared(between, new)
            &&& objects_pushed(
                new,
                after,
                access_unit,
                inspect,
                core,
                analyse,
                mix,
                gather,
                second,
            )
        };
    // The first push, held against itself, says what it leaves.
    cold_decoders_decode_alike(
        before,
        between,
        Ok(Some(first)),
        before,
        between,
        Ok(Some(first)),
        access_unit,
        inspect,
        core,
        analyse,
        mix,
        gather,
    );
    cold_decoders_decode_alike(
        new,
        after,
        second,
        before,
        between,
        Ok(Some(first)),
        access_unit,
        inspect,
        core,
        analyse,
        mix,
        gather,
    );
}

} // verus!
