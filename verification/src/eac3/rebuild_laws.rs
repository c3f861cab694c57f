//! Laws of rebuilding a frame: what feeds it, which frames are refused, and how
//! one frame goes on from the one before.

use crate::eac3::frame::{lemma_place, samples_of, CoreModel};
use crate::eac3::joc::points_result;
use crate::eac3::qmf::{analysed, channel_analysed, gathered};
use crate::eac3::reconstruction::{
    entry, error_place, feeds_downmix, frame_planned, matrix_resized, objects_error,
    objects_taken_up_to, reconfigured, FramePlan, JocObjectDecoderState, ObjectMix, SlotMix,
};
use crate::eac3::synthesis::{object_mixed, runs, slot_traced, slots_decoded, slots_traced};
use crate::eac3::types::{BedChannel, JocPayload, ParseError};
use vstd::prelude::*;

verus! {

/// `place` is the first one at which `order` names `channel`.
pub open spec fn is_first(order: Seq<BedChannel>, channel: BedChannel, place: int) -> bool {
    &&& 0 <= place < order.len()
    &&& order[place] == channel
    &&& forall|before: int| 0 <= before < place ==> order[before] != channel
}

/// The place that `place_of` finds is the first.
proof fn lemma_found_first(order: Seq<BedChannel>, channel: BedChannel, from: int, place: int)
    requires
        0 <= from,
        crate::eac3::frame::place_of(order, channel, from) == Some(place),
    ensures
        from <= place < order.len(),
        order[place] == channel,
        forall|before: int| from <= before < place ==> order[before] != channel,
    decreases order.len() - from,
{
    if from < order.len() && order[from] != channel {
        lemma_found_first(order, channel, from + 1, place);
    }
}

/// The channels of a downmix are L, R, C, Ls, Rs, Lb and Rb, in this order. Each
/// is fed by the core channel of its name; a rear channel that the core does not
/// have is fed by the surround channel of its side.
pub proof fn downmix_channels_are_fed_by_name<S: Copy, G>(
    before: JocObjectDecoderState<S>,
    after: JocObjectDecoderState<S>,
    core: CoreModel<S>,
    joc: JocPayload<G>,
    plan: FramePlan,
    index: int,
)
    requires
        frame_planned(before, after, core, joc, Ok(plan)),
        0 <= index < joc.channel_count,
    ensures
        joc.channel_count <= 7,
        plan.input_indices@.len() == joc.channel_count,
        ({
            let place = plan.input_indices@[index] as int;
            if index == 0 {
                is_first(core.order, BedChannel::FrontLeft, place)
            } else if index == 1 {
                is_first(core.order, BedChannel::FrontRight, place)
            } else if index == 2 {
                is_first(core.order, BedChannel::Center, place)
            } else if index == 3 {
                is_first(core.order, BedChannel::SurroundLeft, place)
            } else if index == 4 {
                is_first(core.order, BedChannel::SurroundRight, place)
            } else if index == 5 {
                if core.order.contains(BedChannel::RearLeft) {
                    is_first(core.order, BedChannel::RearLeft, place)
                } else {
                    is_first(core.order, BedChannel::SurroundLeft, place)
                }
            } else {
                if core.order.contains(BedChannel::RearRight) {
                    is_first(core.order, BedChannel::RearRight, place)
                } else {
                    is_first(core.order, BedChannel::SurroundRight, place)
                }
            }
        }),
{
    let place = plan.input_indices@[index] as int;
    let order = core.order;
    assert(crate::eac3::reconstruction::input_place(
        order,
        crate::eac3::reconstruction::joc_input(index),
    ) == Some(place));
    assert forall|channel: BedChannel|
        crate::eac3::frame::place_of(order, channel, 0) == Some(place) implies is_first(
        order,
        channel,
        place,
    ) by {
        lemma_found_first(order, channel, 0, place);
    }
    lemma_place(order, BedChannel::RearLeft, 0);
    lemma_place(order, BedChannel::RearRight, 0);
}

/// A frame is refused, and the state left alone, where it has more channels
/// than a downmix, where its samples do not come in whole timeslots of 64, or
/// where the core lacks a channel of the downmix.
pub proof fn frames_are_refused_by_their_shape<S: Copy, G>(
    before: JocObjectDecoderState<S>,
    after: JocObjectDecoderState<S>,
    core: CoreModel<S>,
    joc: JocPayload<G>,
    result: Result<FramePlan, ParseError>,
)
    requires
        frame_planned(before, after, core, joc, result),
    ensures
        joc.channel_count > 7 ==> result == Err::<FramePlan, ParseError>(
            ParseError::UnsupportedFeature("joc-channel-count"),
        ) && after == before,
        joc.channel_count <= 7 && (samples_of(core) == 0 || samples_of(core) % 64 != 0)
            ==> result == Err::<FramePlan, ParseError>(
            ParseError::InvalidHeader("joc-frame-samples"),
        ) && after == before,
        joc.channel_count <= 7 && samples_of(core) > 0 && samples_of(core) % 64 == 0 && ({
            ||| joc.channel_count > 0 && !core.order.contains(BedChannel::FrontLeft)
            ||| joc.channel_count > 1 && !core.order.contains(BedChannel::FrontRight)
            ||| joc.channel_count > 2 && !core.order.contains(BedChannel::Center)
            ||| joc.channel_count > 3 && !core.order.contains(BedChannel::SurroundLeft)
            ||| joc.channel_count > 4 && !core.order.contains(BedChannel::SurroundRight)
        }) ==> result == Err::<FramePlan, ParseError>(
            ParseError::UnsupportedFeature("joc-input-layout"),
        ) && after == before,
        result matches Ok(plan) ==> plan.timeslots * 64 == samples_of(core) && plan.timeslots > 0,
{
    let order = core.order;
    if joc.channel_count > 0 && !order.contains(BedChannel::FrontLeft) {
        lemma_place(order, BedChannel::FrontLeft, 0);
        assert(crate::eac3::reconstruction::joc_input(0) == BedChannel::FrontLeft);
    }
    if joc.channel_count > 1 && !order.contains(BedChannel::FrontRight) {
        lemma_place(order, BedChannel::FrontRight, 0);
        assert(crate::eac3::reconstruction::joc_input(1) == BedChannel::FrontRight);
    }
    if joc.channel_count > 2 && !order.contains(BedChannel::Center) {
        lemma_place(order, BedChannel::Center, 0);
        assert(crate::eac3::reconstruction::joc_input(2) == BedChannel::Center);
    }
    if joc.channel_count > 3 && !order.contains(BedChannel::SurroundLeft) {
        lemma_place(order, BedChannel::SurroundLeft, 0);
        assert(crate::eac3::reconstruction::joc_input(3) == BedChannel::SurroundLeft);
    }
    if joc.channel_count > 4 && !order.contains(BedChannel::SurroundRight) {
        lemma_place(order, BedChannel::SurroundRight, 0);
        assert(crate::eac3::reconstruction::joc_input(4) == BedChannel::SurroundRight);
    }
}

/// Without an error every object is there and its parameters are accepted.
proof fn lemma_no_error(
    objects: Seq<crate::eac3::types::JocObject>,
    channel_count: usize,
    object_count: int,
    first: int,
    index: int,
)
    requires
        objects_error(objects, channel_count, object_count, first) is None,
        0 <= first <= index < object_count,
    ensures
        index < objects.len(),
        points_result(objects[index], channel_count) is Ok,
    decreases index - first,
{
    if first < index {
        lemma_no_error(objects, channel_count, object_count, first + 1, index);
    }
}

/// A frame that is accepted has all the objects that it announces, and the
/// parameters of each were accepted.
pub proof fn frames_have_all_their_objects<S: Copy, G>(
    before: JocObjectDecoderState<S>,
    after: JocObjectDecoderState<S>,
    core: CoreModel<S>,
    joc: JocPayload<G>,
    plan: FramePlan,
    index: int,
)
    requires
        frame_planned(before, after, core, joc, Ok(plan)),
        0 <= index < joc.object_count,
    ensures
        joc.object_count <= joc.objects@.len(),
        points_result(joc.objects@[index], joc.channel_count) is Ok,
        after.last_frame@.len() == joc.object_count,
        after.last_frame@[index].slots@.len() * 64 == samples_of(core),
{
    lemma_no_error(
        joc.objects@,
        joc.channel_count,
        joc.object_count as int,
        0,
        joc.object_count - 1,
    );
    lemma_no_error(joc.objects@, joc.channel_count, joc.object_count as int, 0, index);
    let middle = choose|middle: JocObjectDecoderState<S>|
        {
            &&& #[trigger] reconfigured(
                before,
                middle,
                joc.channel_count as int,
                joc.object_count as int,
            )
            &&& crate::eac3::reconstruction::same_banks(middle, after)
            &&& forall|index: int|
                0 <= index < joc.object_count ==> crate::eac3::reconstruction::object_built(
                    middle,
                    after,
                    joc.objects@[index],
                    joc.channel_count,
                    plan.timeslots as int,
                    index,
                    #[trigger] after.last_frame@[index],
                )
        };
    assert(after.last_frame@[index].slots@.len() == plan.timeslots);
}

/// A frame goes on where the one before it ended: over the same channels, an
/// object starts from the last data point of the frame before, or from the same
/// matrix as that frame where it was not active there.
pub proof fn frames_start_where_the_last_one_ended<S: Copy, G>(
    first: JocObjectDecoderState<S>,
    second: JocObjectDecoderState<S>,
    third: JocObjectDecoderState<S>,
    cores: (CoreModel<S>, CoreModel<S>),
    payloads: (JocPayload<G>, JocPayload<G>),
    plans: (FramePlan, FramePlan),
    index: int,
)
    requires
        frame_planned(first, second, cores.0, payloads.0, Ok(plans.0)),
        frame_planned(second, third, cores.1, payloads.1, Ok(plans.1)),
        second.shaped(payloads.0.channel_count as int, payloads.0.object_count as int),
        payloads.0.channel_count == payloads.1.channel_count,
        0 <= index < payloads.0.object_count,
        index < payloads.1.object_count,
        1 <= payloads.0.objects@[index].data_points <= 2,
    ensures
        ({
            let earlier = second.last_frame@[index];
            let later = third.last_frame@[index];
            let object = payloads.0.objects@[index];
            later.previous@ =~= if !object.active {
                earlier.previous@
            } else if object.data_points == 1 {
                earlier.points@[0]@
            } else {
                earlier.points@[1]@
            }
        }),
{
    let (first_joc, second_joc) = payloads;
    let earlier = choose|middle: JocObjectDecoderState<S>|
        {
            &&& #[trigger] reconfigured(
                first,
                middle,
                first_joc.channel_count as int,
                first_joc.object_count as int,
            )
            &&& crate::eac3::reconstruction::same_banks(middle, second)
            &&& forall|index: int|
                0 <= index < first_joc.object_count
                    ==> crate::eac3::reconstruction::object_built(
                    middle,
                    second,
                    first_joc.objects@[index],
                    first_joc.channel_count,
                    plans.0.timeslots as int,
                    index,
                    #[trigger] second.last_frame@[index],
                )
        };
    let later = choose|middle: JocObjectDecoderState<S>|
        {
            &&& #[trigger] reconfigured(
                second,
                middle,
                second_joc.channel_count as int,
                second_joc.object_count as int,
            )
            &&& crate::eac3::reconstruction::same_banks(middle, third)
            &&& forall|index: int|
                0 <= index < second_joc.object_count
                    ==> crate::eac3::reconstruction::object_built(
                    middle,
                    third,
                    second_joc.objects@[index],
                    second_joc.channel_count,
                    plans.1.timeslots as int,
                    index,
                    #[trigger] third.last_frame@[index],
                )
        };
    let mixed = second.last_frame@[index];
    let next = third.last_frame@[index];
    assert(mixed.points@[0]@ == second.mix_matrix@[index]@[0]@);
    assert(mixed.points@[1]@ == second.mix_matrix@[index]@[1]@);
    assert(later.prev_matrix@[index]@ == next.previous@);

}

/// Sample `place` of an object has been played up to timeslot `slot` and is kept
/// from then on.
proof fn lemma_played_is_kept<S: Copy, G, B, A, M, Y>(
    states: Seq<JocObjectDecoderState<S>>,
    sounds: Seq<Seq<Seq<S>>>,
    first: JocObjectDecoderState<S>,
    core: CoreModel<S>,
    joc: JocPayload<G>,
    plan: FramePlan,
    analyse: A,
    mix: M,
    gather: Y,
    object: int,
    place: int,
    slot: int,
) where
    A: Fn(&[S]) -> B,
    M: Fn(&Vec<B>, &ObjectMix, usize) -> [S; 128],
    Y: Fn(&[S], &G) -> [S; 64],

    requires
        slots_traced(
            states,
            sounds,
            plan.timeslots as int,
            first,
            core,
            joc,
            plan,
            analyse,
            mix,
            gather,
        ),
        0 <= object < joc.object_count,
        0 <= slot <= plan.timeslots,
        0 <= place < slot * 64,
    ensures
        sounds[slot][object].len() == plan.timeslots * 64,
        sounds.last()[object].len() == plan.timeslots * 64,
        sounds.last()[object][place] == sounds[slot][object][place],
    decreases plan.timeslots - slot,
{
    lemma_sound_lengths(
        states,
        sounds,
        first,
        core,
        joc,
        plan,
        analyse,
        mix,
        gather,
        object,
        slot,
    );
    lemma_sound_lengths(
        states,
        sounds,
        first,
        core,
        joc,
        plan,
        analyse,
        mix,
        gather,
        object,
        plan.timeslots as int,
    );
    if slot < plan.timeslots {
        assert(slot_traced(
            states,
            sounds,
            slot,
            core,
            joc,
            plan,
            analyse,
            mix,
            gather,
        ));
        assert(sounds[slot + 1][object][place] == sounds[slot][object][place]);
        lemma_played_is_kept(
            states,
            sounds,
            first,
            core,
            joc,
            plan,
            analyse,
            mix,
            gather,
            object,
            place,
            slot + 1,
        );
    }
}

/// The sound of an object has the length of the frame throughout.
proof fn lemma_sound_lengths<S: Copy, G, B, A, M, Y>(
    states: Seq<JocObjectDecoderState<S>>,
    sounds: Seq<Seq<Seq<S>>>,
    first: JocObjectDecoderState<S>,
    core: CoreModel<S>,
    joc: JocPayload<G>,
    plan: FramePlan,
    analyse: A,
    mix: M,
    gather: Y,
    object: int,
    slot: int,
) where
    A: Fn(&[S]) -> B,
    M: Fn(&Vec<B>, &ObjectMix, usize) -> [S; 128],
    Y: Fn(&[S], &G) -> [S; 64],

    requires
        slots_traced(
            states,
            sounds,
            plan.timeslots as int,
            first,
            core,
            joc,
            plan,
            analyse,
            mix,
            gather,
        ),
        0 <= object < joc.object_count,
        0 <= slot <= plan.timeslots,
    ensures
        sounds[slot].len() == joc.object_count,
        sounds[slot][object].len() == plan.timeslots * 64,
        runs(first, joc, object) ==> runs(states[slot], joc, object),
        states[slot].last_frame == first.last_frame,
    decreases slot,
{
    if slot > 0 {
        lemma_sound_lengths(
            states,
            sounds,
            first,
            core,
            joc,
            plan,
            analyse,
            mix,
            gather,
            object,
            slot - 1,
        );
        assert(slot_traced(
            states,
            sounds,
            slot - 1,
            core,
            joc,
            plan,
            analyse,
            mix,
            gather,
        ));
        assert(sounds[slot][object].len() == sounds[slot - 1][object].len());
    }
}

/// `window` is where the synthesis of an object stands behind a timeslot, and
/// `output` the 64 samples that come of it: 128 new samples stand in front of the
/// 1152 newest ones of the window before.
pub open spec fn window_played<S, G, B, M, Y>(
    before: Seq<S>,
    window: Seq<S>,
    output: Seq<S>,
    mixed: ObjectMix,
    slot: int,
    gain: G,
    mix: M,
    gather: Y,
) -> bool where M: Fn(&Vec<B>, &ObjectMix, usize) -> [S; 128], Y: Fn(&[S], &G) -> [S; 64] {
    exists|analysis: Vec<B>, block: [S; 128], sound: [S; 64]|
        {
            &&& #[trigger] mix.ensures((&analysis, &mixed, slot as usize), block)
            &&& window == block@ + before.take(1152)
            &&& #[trigger] gathered(gather, window, gain, sound)
            &&& output == sound@
        }
}

/// Every timeslot of an object that plays gives the 64 samples at its own place
/// in the frame, from the synthesis window that it leaves.
pub proof fn each_timeslot_gives_its_own_samples<S: Copy, G, B, A, M, Y>(
    first: JocObjectDecoderState<S>,
    last: JocObjectDecoderState<S>,
    core: CoreModel<S>,
    joc: JocPayload<G>,
    plan: FramePlan,
    sound: Seq<Seq<S>>,
    analyse: A,
    mix: M,
    gather: Y,
    object: int,
    slot: int,
) where
    A: Fn(&[S]) -> B,
    M: Fn(&Vec<B>, &ObjectMix, usize) -> [S; 128],
    Y: Fn(&[S], &G) -> [S; 64],

    requires
        slots_decoded(first, last, core, joc, plan, sound, analyse, mix, gather),
        0 <= object < joc.object_count,
        0 <= slot < plan.timeslots,
        joc.objects@[object].active || first.inverse_history@[object],
    ensures
        last.inverse_history@[object],
        sound.len() == joc.object_count,
        sound[object].len() == plan.timeslots * 64,
        exists|before: Seq<S>, window: Seq<S>, output: Seq<S>|
            {
                &&& #[trigger] window_played::<S, G, B, M, Y>(
                    before,
                    window,
                    output,
                    first.last_frame@[object],
                    slot,
                    joc.gain,
                    mix,
                    gather,
                )
                &&& sound[object].subrange(slot * 64, slot * 64 + 64) =~= output
                &&& slot == 0 ==> before == first.inverse_qmf@[object].inverse.window()
                &&& slot == plan.timeslots - 1 ==> window
                    == last.inverse_qmf@[object].inverse.window()
            },
{
    let (states, sounds) = choose|
        states: Seq<JocObjectDecoderState<S>>,
        sounds: Seq<Seq<Seq<S>>>,
    |
        {
            &&& #[trigger] slots_traced(
                states,
                sounds,
                plan.timeslots as int,
                first,
                core,
                joc,
                plan,
                analyse,
                mix,
                gather,
            )
            &&& states.last() == last
            &&& sounds.last() == sound
        };
    lemma_sound_lengths(
        states,
        sounds,
        first,
        core,
        joc,
        plan,
        analyse,
        mix,
        gather,
        object,
        slot,
    );
    lemma_sound_lengths(
        states,
        sounds,
        first,
        core,
        joc,
        plan,
        analyse,
        mix,
        gather,
        object,
        slot + 1,
    );
    lemma_sound_lengths(
        states,
        sounds,
        first,
        core,
        joc,
        plan,
        analyse,
        mix,
        gather,
        object,
        plan.timeslots - 1,
    );
    lemma_sound_lengths(
        states,
        sounds,
        first,
        core,
        joc,
        plan,
        analyse,
        mix,
        gather,
        object,
        plan.timeslots as int,
    );
    assert(slot_traced(
            states,
            sounds,
            plan.timeslots - 1,
            core,
            joc,
            plan,
            analyse,
            mix,
            gather,
        ));
    assert(slot_traced(
            states,
            sounds,
            slot,
            core,
            joc,
            plan,
            analyse,
            mix,
            gather,
        ));
    assert(sounds[plan.timeslots as int][object].len() == plan.timeslots * 64);
    let before = states[slot].inverse_qmf@[object].inverse.window();
    let window = states[slot + 1].inverse_qmf@[object].inverse.window();
    let output = sounds[slot + 1][object].subrange(slot * 64, slot * 64 + 64);
    assert(window_played::<S, G, B, M, Y>(
        before,
        window,
        output,
        first.last_frame@[object],
        slot,
        joc.gain,
        mix,
        gather,
    )) by {
        let analysis = choose|analysis: Vec<B>|
            {
                &&& #[trigger] analysis@.len() == joc.channel_count
                &&& forall|other: int|
                    0 <= other < joc.object_count ==> object_mixed(
                        states[slot],
                        states[slot + 1],
                        joc,
                        states[slot].last_frame@[other],
                        slot,
                        other,
                        analysis,
                        sounds[slot][other],
                        #[trigger] sounds[slot + 1][other],
                        mix,
                        gather,
                    )
            };
        assert(object_mixed(
            states[slot],
            states[slot + 1],
            joc,
            states[slot].last_frame@[object],
            slot,
            object,
            analysis,
            sounds[slot][object],
            sounds[slot + 1][object],
            mix,
            gather,
        ));
        let (block, played) = choose|block: [S; 128], played: [S; 64]|
            {
                &&& #[trigger] mix.ensures(
                    (&analysis, &states[slot].last_frame@[object], slot as usize),
                    block,
                )
                &&& window == block@ + before.take(1152)
                &&& #[trigger] gathered(gather, window, joc.gain, played)
                &&& sounds[slot + 1][object] == crate::eac3::synthesis::with_block(
                    sounds[slot][object],
                    slot * 64,
                    played@,
                )
            };
        assert(output =~= played@);
    }
    assert forall|place: int| slot * 64 <= place < slot * 64 + 64 implies sound[object][place]
        == sounds[slot + 1][object][place] by {
        lemma_played_is_kept(
            states,
            sounds,
            first,
            core,
            joc,
            plan,
            analyse,
            mix,
            gather,
            object,
            place,
            slot + 1,
        );
    }
    assert(sound[object].subrange(slot * 64, slot * 64 + 64) =~= output);
}

/// The analysis of a channel stands at the newest samples after each timeslot.
proof fn lemma_newest<S: Copy, G, B, A, M, Y>(
    states: Seq<JocObjectDecoderState<S>>,
    sounds: Seq<Seq<Seq<S>>>,
    first: JocObjectDecoderState<S>,
    core: CoreModel<S>,
    joc: JocPayload<G>,
    plan: FramePlan,
    analyse: A,
    mix: M,
    gather: Y,
    channel: int,
    slot: int,
) where
    A: Fn(&[S]) -> B,
    M: Fn(&Vec<B>, &ObjectMix, usize) -> [S; 128],
    Y: Fn(&[S], &G) -> [S; 64],

    requires
        slots_traced(
            states,
            sounds,
            plan.timeslots as int,
            first,
            core,
            joc,
            plan,
            analyse,
            mix,
            gather,
        ),
        0 <= channel < joc.channel_count,
        0 <= slot <= plan.timeslots,
        first.forward_qmf@[channel].forward.window().len() == 640,
        core.channels[plan.input_indices@[channel] as int].len() >= plan.timeslots * 64,
    ensures
        ({
            let window = states[slot].forward_qmf@[channel].forward.window();
            let input = core.channels[plan.input_indices@[channel] as int];
            &&& window.len() == 640
            &&& forall|place: int|
                0 <= place < 640 ==> #[trigger] window[place] == if place < slot * 64 {
                    input[slot * 64 - 1 - place]
                } else {
                    first.forward_qmf@[channel].forward.window()[place - slot * 64]
                }
        }),
    decreases slot,
{
    if slot > 0 {
        lemma_newest(
            states,
            sounds,
            first,
            core,
            joc,
            plan,
            analyse,
            mix,
            gather,
            channel,
            slot - 1,
        );
        assert(slot_traced(
            states,
            sounds,
            slot - 1,
            core,
            joc,
            plan,
            analyse,
            mix,
            gather,
        ));
        let input = core.channels[plan.input_indices@[channel] as int];
        let fresh = input.subrange((slot - 1) * 64, (slot - 1) * 64 + 64).reverse();
        let older = states[slot - 1].forward_qmf@[channel].forward.window();
        let window = states[slot].forward_qmf@[channel].forward.window();
        let analysis = choose|analysis: Vec<B>|
            {
                &&& #[trigger] analysis@.len() == joc.channel_count
                &&& forall|other: int|
                    0 <= other < joc.channel_count ==> channel_analysed(
                        states[slot - 1].forward_qmf@[other],
                        states[slot].forward_qmf@[other],
                        crate::eac3::synthesis::slot_samples(
                            core,
                            plan.input_indices@[other] as int,
                            slot - 1,
                        ),
                        analyse,
                        #[trigger] analysis@[other],
                    )
            };
        let heard = analysis@[channel];
        assert(window == fresh + older.take(576));
        assert forall|place: int| 0 <= place < 640 implies #[trigger] window[place] == if place
            < slot * 64 {
            input[slot * 64 - 1 - place]
        } else {
            first.forward_qmf@[channel].forward.window()[place - slot * 64]
        } by {
            if place >= 64 {
                assert(window[place] == older[place - 64]);
            }
        }
    }
}

/// Behind a frame, the analysis of each downmix channel stands at the 640 newest
/// samples of the core channel that feeds it, the newest first; where the frame
/// is shorter, what was there before follows.
pub proof fn analysis_stands_at_the_newest_samples<S: Copy, G, B, A, M, Y>(
    first: JocObjectDecoderState<S>,
    last: JocObjectDecoderState<S>,
    core: CoreModel<S>,
    joc: JocPayload<G>,
    plan: FramePlan,
    sound: Seq<Seq<S>>,
    analyse: A,
    mix: M,
    gather: Y,
    channel: int,
    place: int,
) where
    A: Fn(&[S]) -> B,
    M: Fn(&Vec<B>, &ObjectMix, usize) -> [S; 128],
    Y: Fn(&[S], &G) -> [S; 64],

    requires
        slots_decoded(first, last, core, joc, plan, sound, analyse, mix, gather),
        0 <= channel < joc.channel_count,
        0 <= place < 640,
        first.forward_qmf@[channel].forward.window().len() == 640,
        core.channels[plan.input_indices@[channel] as int].len() >= plan.timeslots * 64,
    ensures
        ({
            let samples = plan.timeslots * 64;
            let input = core.channels[plan.input_indices@[channel] as int];
            last.forward_qmf@[channel].forward.window()[place] == if place < samples {
                input[samples - 1 - place]
            } else {
                first.forward_qmf@[channel].forward.window()[place - samples]
            }
        }),
{
    let (states, sounds) = choose|
        states: Seq<JocObjectDecoderState<S>>,
        sounds: Seq<Seq<Seq<S>>>,
    |
        {
            &&& #[trigger] slots_traced(
                states,
                sounds,
                plan.timeslots as int,
                first,
                core,
                joc,
                plan,
                analyse,
                mix,
                gather,
            )
            &&& states.last() == last
            &&& sounds.last() == sound
        };
    lemma_newest(
        states,
        sounds,
        first,
        core,
        joc,
        plan,
        analyse,
        mix,
        gather,
        channel,
        plan.timeslots as int,
    );
}

/// Bringing a state to another number of channels and objects keeps what stays:
/// an object's matrix over the channels that stay, its offsets and whether it has
/// played, and the filter history of each. What is new starts silent.
pub proof fn reconfiguring_keeps_what_stays<S: Copy>(
    before: JocObjectDecoderState<S>,
    after: JocObjectDecoderState<S>,
    channel_count: int,
    object_count: int,
    object: int,
    channel: int,
)
    requires
        reconfigured(before, after, channel_count, object_count),
        0 <= object < object_count,
        0 <= channel < channel_count,
        before.inverse_history@.len() == before.prev_matrix@.len(),
        before.timeslot_offsets@.len() == before.prev_matrix@.len(),
    ensures
        after.prev_matrix@.len() == object_count,
        after.forward_qmf@.len() == channel_count,
        after.inverse_qmf@.len() == object_count,
        after.silence == before.silence,
        ({
            let known = object < before.prev_matrix@.len();
            let kept = known && channel < before.prev_matrix@[object]@.len();
            &&& after.prev_matrix@[object]@.len() == channel_count
            &&& kept ==> after.prev_matrix@[object]@[channel]
                == before.prev_matrix@[object]@[channel]
            &&& !kept ==> forall|subband: int|
                0 <= subband < 64 ==> (#[trigger] after.prev_matrix@[object]@[channel]@[subband]
                    ).steps == 0
            &&& after.inverse_history@[object] <==> known && before.inverse_history@[object]
            &&& known ==> after.timeslot_offsets@[object]@[0]
                == before.timeslot_offsets@[object]@[0] && after.timeslot_offsets@[object]@[1]
                == before.timeslot_offsets@[object]@[1]
            &&& !known ==> after.timeslot_offsets@[object]@[0] == 0
                && after.timeslot_offsets@[object]@[1] == 0
            &&& channel < before.forward_qmf@.len() ==> after.forward_qmf@[channel]
                == before.forward_qmf@[channel]
            &&& object < before.inverse_qmf@.len() ==> after.inverse_qmf@[object]
                == before.inverse_qmf@[object]
            &&& channel >= before.forward_qmf@.len() ==> forall|place: int|
                0 <= place < 640 ==> #[trigger] after.forward_qmf@[channel].forward.window()[place]
                    == before.silence
            &&& object >= before.inverse_qmf@.len() ==> forall|place: int|
                0 <= place < 1280 ==> #[trigger] after.inverse_qmf@[object].inverse.window()[place]
                    == before.silence
        }),
{
    assert(matrix_resized(
        match entry(before.prev_matrix@, object) {
            Some(matrix) => matrix@,
            None => Seq::empty(),
        },
        after.prev_matrix@[object]@,
        channel_count,
    ));
}

/// What `analyse` makes of a window whose newest samples are those of `input` up
/// to `until`, the newest first.
pub open spec fn analysed_newest<S, B, A>(
    analyse: A,
    input: Seq<S>,
    until: int,
    subbands: B,
) -> bool where A: Fn(&[S]) -> B {
    exists|window: Seq<S>|
        {
            &&& #[trigger] analysed(analyse, window, subbands)
            &&& window.len() == 640
            &&& forall|place: int|
                0 <= place < 640 && place < until ==> #[trigger] window[place] == input[until - 1
                    - place]
        }
}

/// A timeslot of an object that plays is mixed from the analysis of every channel
/// of the downmix, up to the last sample of that timeslot, by the mixing of that
/// object and for that timeslot.
pub proof fn timeslots_are_mixed_from_their_own_samples<S: Copy, G, B, A, M, Y>(
    first: JocObjectDecoderState<S>,
    last: JocObjectDecoderState<S>,
    core: CoreModel<S>,
    joc: JocPayload<G>,
    plan: FramePlan,
    sound: Seq<Seq<S>>,
    analyse: A,
    mix: M,
    gather: Y,
    object: int,
    slot: int,
) where
    A: Fn(&[S]) -> B,
    M: Fn(&Vec<B>, &ObjectMix, usize) -> [S; 128],
    Y: Fn(&[S], &G) -> [S; 64],

    requires
        slots_decoded(first, last, core, joc, plan, sound, analyse, mix, gather),
        0 <= object < joc.object_count,
        0 <= slot < plan.timeslots,
        joc.objects@[object].active || first.inverse_history@[object],
        forall|channel: int|
            0 <= channel < joc.channel_count ==> {
                &&& (#[trigger] first.forward_qmf@[channel]).forward.window().len() == 640
                &&& core.channels[plan.input_indices@[channel] as int].len() >= plan.timeslots * 64
            },
    ensures
        exists|analysis: Vec<B>, block: [S; 128]|
            {
                &&& #[trigger] mix.ensures(
                    (&analysis, &first.last_frame@[object], slot as usize),
                    block,
                )
                &&& analysis@.len() == joc.channel_count
                &&& forall|channel: int|
                    0 <= channel < joc.channel_count ==> analysed_newest(
                        analyse,
                        core.channels[plan.input_indices@[channel] as int],
                        (slot + 1) * 64,
                        #[trigger] analysis@[channel],
                    )
            },
{
    let (states, sounds) = choose|
        states: Seq<JocObjectDecoderState<S>>,
        sounds: Seq<Seq<Seq<S>>>,
    |
        {
            &&& #[trigger] slots_traced(
                states,
                sounds,
                plan.timeslots as int,
                first,
                core,
                joc,
                plan,
                analyse,
                mix,
                gather,
            )
            &&& states.last() == last
            &&& sounds.last() == sound
        };
    lemma_sound_lengths(
        states,
        sounds,
        first,
        core,
        joc,
        plan,
        analyse,
        mix,
        gather,
        object,
        slot,
    );
    assert(slot_traced(states, sounds, slot, core, joc, plan, analyse, mix, gather));
    let analysis = choose|analysis: Vec<B>|
        {
            &&& #[trigger] analysis@.len() == joc.channel_count
            &&& forall|channel: int|
                0 <= channel < joc.channel_count ==> channel_analysed(
                    states[slot].forward_qmf@[channel],
                    states[slot + 1].forward_qmf@[channel],
                    crate::eac3::synthesis::slot_samples(
                        core,
                        plan.input_indices@[channel] as int,
                        slot,
                    ),
                    analyse,
                    #[trigger] analysis@[channel],
                )
            &&& forall|other: int|
                0 <= other < joc.object_count ==> object_mixed(
                    states[slot],
                    states[slot + 1],
                    joc,
                    states[slot].last_frame@[other],
                    slot,
                    other,
                    analysis,
                    sounds[slot][other],
                    #[trigger] sounds[slot + 1][other],
                    mix,
                    gather,
                )
        };
    assert(object_mixed(
        states[slot],
        states[slot + 1],
        joc,
        states[slot].last_frame@[object],
        slot,
        object,
        analysis,
        sounds[slot][object],
        sounds[slot + 1][object],
        mix,
        gather,
    ));
    assert forall|channel: int| 0 <= channel < joc.channel_count implies analysed_newest(
        analyse,
        core.channels[plan.input_indices@[channel] as int],
        (slot + 1) * 64,
        #[trigger] analysis@[channel],
    ) by {
        assert(first.forward_qmf@[channel].forward.window().len() == 640);
        lemma_newest(
            states,
            sounds,
            first,
            core,
            joc,
            plan,
            analyse,
            mix,
            gather,
            channel,
            slot + 1,
        );
        let window = states[slot + 1].forward_qmf@[channel].forward.window();
        assert(analysed(analyse, window, analysis@[channel]));
    }
}

/// Objects that are all there and accepted are in no error.
proof fn lemma_accepted(
    objects: Seq<crate::eac3::types::JocObject>,
    channel_count: usize,
    object_count: int,
    from: int,
)
    requires
        0 <= from,
        object_count <= objects.len(),
        forall|index: int|
            0 <= index < object_count ==> points_result(#[trigger] objects[index], channel_count)
                is Ok,
    ensures
        objects_error(objects, channel_count, object_count, from) is None,
    decreases object_count - from,
{
    if from < object_count {
        assert(points_result(objects[from], channel_count) is Ok);
        lemma_accepted(objects, channel_count, object_count, from + 1);
    }
}

/// A frame is rebuilt where its samples come in whole timeslots, the core has the
/// channels of its downmix, and all its objects are there and accepted.
pub proof fn complete_frames_are_accepted<S: Copy, G>(
    before: JocObjectDecoderState<S>,
    after: JocObjectDecoderState<S>,
    core: CoreModel<S>,
    joc: JocPayload<G>,
    result: Result<FramePlan, ParseError>,
)
    requires
        frame_planned(before, after, core, joc, result),
        joc.channel_count <= 7,
        samples_of(core) > 0,
        samples_of(core) % 64 == 0,
        joc.channel_count > 0 ==> core.order.contains(BedChannel::FrontLeft),
        joc.channel_count > 1 ==> core.order.contains(BedChannel::FrontRight),
        joc.channel_count > 2 ==> core.order.contains(BedChannel::Center),
        joc.channel_count > 3 ==> core.order.contains(BedChannel::SurroundLeft),
        joc.channel_count > 4 ==> core.order.contains(BedChannel::SurroundRight),
        joc.object_count <= joc.objects@.len(),
        forall|index: int|
            0 <= index < joc.object_count ==> points_result(
                #[trigger] joc.objects@[index],
                joc.channel_count,
            ) is Ok,
    ensures
        result is Ok,
{
    let order = core.order;
    lemma_accepted(joc.objects@, joc.channel_count, joc.object_count as int, 0);
    lemma_place(order, BedChannel::FrontLeft, 0);
    lemma_place(order, BedChannel::FrontRight, 0);
    lemma_place(order, BedChannel::Center, 0);
    lemma_place(order, BedChannel::SurroundLeft, 0);
    lemma_place(order, BedChannel::SurroundRight, 0);
    assert forall|index: int| 0 <= index < joc.channel_count implies
        crate::eac3::reconstruction::input_place(
        order,
        #[trigger] crate::eac3::reconstruction::joc_input(index),
    ) is Some by {}
}

/// The first object in error is missing or refused, and all before it are there
/// and accepted. Its error is the one that is given.
proof fn lemma_first_error(
    objects: Seq<crate::eac3::types::JocObject>,
    channel_count: usize,
    object_count: int,
    from: int,
)
    requires
        0 <= from,
        objects_error(objects, channel_count, object_count, from) is Some,
    ensures
        ({
            let place = error_place(objects, channel_count, object_count, from);
            let error = objects_error(objects, channel_count, object_count, from)->0;
            &&& from <= place < object_count
            &&& forall|index: int|
                from <= index < place ==> index < objects.len() && points_result(
                    #[trigger] objects[index],
                    channel_count,
                ) is Ok
            &&& place >= objects.len() ==> error == ParseError::InvalidHeader("joc-object")
            &&& place < objects.len() ==> points_result(objects[place], channel_count) == Err::<
                (),
                ParseError,
            >(error)
        }),
    decreases object_count - from,
{
    if from < object_count && from < objects.len() && points_result(objects[from], channel_count)
        is Ok {
        lemma_first_error(objects, channel_count, object_count, from + 1);
    }
}

/// A frame with an object in error says why the first one is, and keeps what was
/// taken up before it: the objects in front of it are mixed by their own
/// parameters. The one in error and those behind it are still mixed as in the
/// frame before, over the new timeslots, and go on from the matrix that they had.
pub proof fn frames_in_error_keep_the_objects_before_it<S: Copy, G>(
    before: JocObjectDecoderState<S>,
    after: JocObjectDecoderState<S>,
    core: CoreModel<S>,
    joc: JocPayload<G>,
    error: ParseError,
    index: int,
    slot: int,
) -> (place: int)
    requires
        frame_planned(before, after, core, joc, Err(error)),
        joc.channel_count <= 7,
        samples_of(core) > 0,
        samples_of(core) % 64 == 0,
        feeds_downmix(core.order, joc.channel_count as int),
        0 <= index < joc.object_count,
        0 <= slot < samples_of(core) / 64,
    ensures
        0 <= place < joc.object_count,
        forall|earlier: int|
            0 <= earlier < place ==> earlier < joc.objects@.len() && points_result(
                #[trigger] joc.objects@[earlier],
                joc.channel_count,
            ) is Ok,
        place >= joc.objects@.len() ==> error == ParseError::InvalidHeader("joc-object"),
        place < joc.objects@.len() ==> points_result(joc.objects@[place], joc.channel_count)
            == Err::<(), ParseError>(error),
        after.last_frame@.len() == joc.object_count,
        after.last_frame@[index].slots@.len() * 64 == samples_of(core),
        index < place && joc.objects@[index].active ==> !(after.last_frame@[index].slots@[slot]
            is Silent),
        index < place && !joc.objects@[index].active ==> after.last_frame@[index].slots@[slot]
            is Silent,
        index >= place ==> after.last_frame@[index].slots@[slot] == if index
            < before.last_frame@.len() && slot < before.last_frame@[index].slots@.len() {
            before.last_frame@[index].slots@[slot]
        } else {
            SlotMix::Silent
        },
        index >= place && index < before.prev_matrix@.len() ==> forall|channel: int|
            0 <= channel < joc.channel_count && channel < before.prev_matrix@[index]@.len()
                ==> #[trigger] after.prev_matrix@[index]@[channel]
                == before.prev_matrix@[index]@[channel],
{
    lemma_first_error(joc.objects@, joc.channel_count, joc.object_count as int, 0);
    let place = error_place(joc.objects@, joc.channel_count, joc.object_count as int, 0);
    let middle = choose|middle: JocObjectDecoderState<S>|
        {
            &&& #[trigger] reconfigured(
                before,
                middle,
                joc.channel_count as int,
                joc.object_count as int,
            )
            &&& crate::eac3::reconstruction::same_banks(middle, after)
            &&& objects_taken_up_to(
                middle,
                after,
                joc.objects@,
                joc.channel_count,
                joc.object_count as int,
                (samples_of(core) / 64) as int,
                place,
            )
        };
    assert(middle.last_frame == before.last_frame);
    let mixed = after.last_frame@[index];
    if index >= place {
        assert(after.prev_matrix@[index]@ == middle.prev_matrix@[index]@);
    }
    assert(mixed.slots@[slot] == mixed.slots@[slot]);
    place
}

} // verus!
