//! Rebuilding of a frame's objects, timeslot by timeslot.
//!
//! What is computed with samples is handed in: `analyse` turns a window of a
//! core channel into subbands, `mix` mixes the subbands of all channels into
//! the next samples of an object's synthesis, and `gather` turns a window of
//! that synthesis into output.

use crate::eac3::frame::{samples_of, CoreModel, CorePcmFrame};
use crate::eac3::joc::{band_of, bands_follow_subbands, no_gain, points_result, Gain};
use crate::eac3::qmf::{
    channel_analysed, gathered, FORWARD_WINDOW, INVERSE_STEP, INVERSE_WINDOW,
};
use crate::eac3::reconstruction::{
    frame_error, frame_planned, input_place, is_silent_matrix, joc_input, object_built,
    objects_error, objects_play, reconfigured, same_banks, FramePlan, JocObjectDecoderState,
    ObjectMix,
};
use crate::eac3::types::{JocObject, JocPayload, ParseError};
use vstd::prelude::*;
use vstd::slice::slice_subrange;

verus! {

/// `sound` with `block` from `from` on.
pub open spec fn with_block<S>(sound: Seq<S>, from: int, block: Seq<S>) -> Seq<S> {
    Seq::new(
        sound.len(),
        |place: int|
            if from <= place < from + block.len() {
                block[place - from]
            } else {
                sound[place]
            },
    )
}

/// A core channel's samples of timeslot `slot`.
pub open spec fn slot_samples<S>(core: CoreModel<S>, channel: int, slot: int) -> Seq<S> {
    core.channels[channel].subrange(slot * 64, slot * 64 + 64)
}

/// Whether the synthesis of an object runs: it does for an active object, and
/// from then on, so that its tail is played out.
pub open spec fn runs<S, G>(
    state: JocObjectDecoderState<S>,
    joc: JocPayload<G>,
    object: int,
) -> bool {
    joc.objects@[object].active || state.inverse_history@[object]
}

/// An object's synthesis and its sound have gone on by one timeslot.
pub open spec fn object_mixed<S: Copy, G, B, M, Y>(
    before: JocObjectDecoderState<S>,
    after: JocObjectDecoderState<S>,
    joc: JocPayload<G>,
    mixed: ObjectMix,
    slot: int,
    object: int,
    analysis: Vec<B>,
    sound_before: Seq<S>,
    sound_after: Seq<S>,
    mix: M,
    gather: Y,
) -> bool where M: Fn(&Vec<B>, &ObjectMix, usize) -> [S; 128], Y: Fn(&[S], &G) -> [S; 64] {
    let old_bank = before.inverse_qmf@[object];
    let new_bank = after.inverse_qmf@[object];
    &&& after.inverse_history@[object] == runs(before, joc, object)
    &&& if !runs(before, joc, object) {
        new_bank == old_bank && sound_after == sound_before
    } else {
        &&& new_bank.forward == old_bank.forward
        &&& exists|block: [S; 128], output: [S; 64]|
            {
                &&& #[trigger] mix.ensures((&analysis, &mixed, slot as usize), block)
                &&& new_bank.inverse.window() == block@ + old_bank.inverse.window().take(
                    INVERSE_WINDOW - INVERSE_STEP,
                )
                &&& #[trigger] gathered(gather, new_bank.inverse.window(), joc.gain, output)
                &&& sound_after == with_block(sound_before, slot * 64, output@)
            }
    }
}

/// A state and the objects' sound have gone on by one timeslot.
pub open spec fn slot_decoded<S: Copy, G, B, A, M, Y>(
    before: JocObjectDecoderState<S>,
    after: JocObjectDecoderState<S>,
    core: CoreModel<S>,
    joc: JocPayload<G>,
    plan: FramePlan,
    slot: int,
    sound_before: Seq<Seq<S>>,
    sound_after: Seq<Seq<S>>,
    analyse: A,
    mix: M,
    gather: Y,
) -> bool where
    A: Fn(&[S]) -> B,
    M: Fn(&Vec<B>, &ObjectMix, usize) -> [S; 128],
    Y: Fn(&[S], &G) -> [S; 64],
 {
    &&& after == (JocObjectDecoderState {
        forward_qmf: after.forward_qmf,
        inverse_qmf: after.inverse_qmf,
        inverse_history: after.inverse_history,
        ..before
    })
    &&& after.forward_qmf@.len() == before.forward_qmf@.len()
    &&& after.inverse_qmf@.len() == before.inverse_qmf@.len()
    &&& after.inverse_history@.len() == before.inverse_history@.len()
    &&& sound_after.len() == sound_before.len()
    &&& exists|analysis: Vec<B>|
        {
            &&& #[trigger] analysis@.len() == joc.channel_count
            &&& forall|channel: int|
                0 <= channel < joc.channel_count ==> channel_analysed(
                    before.forward_qmf@[channel],
                    after.forward_qmf@[channel],
                    slot_samples(core, plan.input_indices@[channel] as int, slot),
                    analyse,
                    #[trigger] analysis@[channel],
                )
            &&& forall|object: int|
                0 <= object < joc.object_count ==> object_mixed(
                    before,
                    after,
                    joc,
                    before.last_frame@[object],
                    slot,
                    object,
                    analysis,
                    sound_before[object],
                    #[trigger] sound_after[object],
                    mix,
                    gather,
                )
        }
}

/// Every object silent for a frame of `count` samples.
pub open spec fn silent_sound<S>(silence: S, objects: nat, count: nat) -> Seq<Seq<S>> {
    Seq::new(objects, |object: int| Seq::new(count, |place: int| silence))
}

/// The sound in a list of channels.
pub open spec fn sound_of<S>(channels: Seq<Vec<S>>) -> Seq<Seq<S>> {
    Seq::new(channels.len(), |object: int| channels[object]@)
}

/// Timeslot `slot` leads from one of the states and sounds to the next.
pub open spec fn slot_traced<S: Copy, G, B, A, M, Y>(
    states: Seq<JocObjectDecoderState<S>>,
    sounds: Seq<Seq<Seq<S>>>,
    slot: int,
    core: CoreModel<S>,
    joc: JocPayload<G>,
    plan: FramePlan,
    analyse: A,
    mix: M,
    gather: Y,
) -> bool where
    A: Fn(&[S]) -> B,
    M: Fn(&Vec<B>, &ObjectMix, usize) -> [S; 128],
    Y: Fn(&[S], &G) -> [S; 64],
 {
    slot_decoded(
        states[slot],
        states[slot + 1],
        core,
        joc,
        plan,
        slot,
        sounds[slot],
        sounds[slot + 1],
        analyse,
        mix,
        gather,
    )
}

/// The states and sounds of `slots` timeslots, each leading to the next, from
/// `first` and silence on.
pub open spec fn slots_traced<S: Copy, G, B, A, M, Y>(
    states: Seq<JocObjectDecoderState<S>>,
    sounds: Seq<Seq<Seq<S>>>,
    slots: int,
    first: JocObjectDecoderState<S>,
    core: CoreModel<S>,
    joc: JocPayload<G>,
    plan: FramePlan,
    analyse: A,
    mix: M,
    gather: Y,
) -> bool where
    A: Fn(&[S]) -> B,
    M: Fn(&Vec<B>, &ObjectMix, usize) -> [S; 128],
    Y: Fn(&[S], &G) -> [S; 64],
 {
    &&& states.len() == slots + 1
    &&& sounds.len() == slots + 1
    &&& states[0] == first
    &&& sounds[0] == silent_sound(
        first.silence,
        joc.object_count as nat,
        (plan.timeslots * 64) as nat,
    )
    &&& forall|slot: int|
        0 <= slot < slots ==> #[trigger] slot_traced(
            states,
            sounds,
            slot,
            core,
            joc,
            plan,
            analyse,
            mix,
            gather,
        )
}

/// A state has gone from `first` to `last` by all timeslots of a frame, and
/// `sound` came out.
pub open spec fn slots_decoded<S: Copy, G, B, A, M, Y>(
    first: JocObjectDecoderState<S>,
    last: JocObjectDecoderState<S>,
    core: CoreModel<S>,
    joc: JocPayload<G>,
    plan: FramePlan,
    sound: Seq<Seq<S>>,
    analyse: A,
    mix: M,
    gather: Y,
) -> bool where
    A: Fn(&[S]) -> B,
    M: Fn(&Vec<B>, &ObjectMix, usize) -> [S; 128],
    Y: Fn(&[S], &G) -> [S; 64],
 {
    exists|states: Seq<JocObjectDecoderState<S>>, sounds: Seq<Seq<Seq<S>>>|
        {
            &&& #[trigger] slots_traced(
                states,
                sounds,
                plan.timeslots as int,
                first,
                core,
                joc,
                plan,
                analyse,
                mix,
                gather,
            )
            &&& states.last() == last
            &&& sounds.last() == sound
        }
}

/// Every core channel that feeds the downmix has as many samples as the frame.
pub open spec fn core_feeds<S>(core: CoreModel<S>, channel_count: usize) -> bool {
    forall|index: int|
        0 <= index < channel_count ==> (#[trigger] input_place(core.order, joc_input(index))
            matches Some(place) ==> place < core.channels.len() && core.channels[place].len()
            >= samples_of(core))
}

/// The sizes that a frame is rebuilt within, where its downmix can be fed.
pub open spec fn frame_fits<S, G>(core: CoreModel<S>, joc: JocPayload<G>) -> bool {
    frame_error(core.order, samples_of(core), joc.channel_count) is None ==> {
        &&& core_feeds(core, joc.channel_count)
        &&& objects_play(joc)
    }
}

/// The sound that rebuilding a frame returns.
pub open spec fn sound_result<S>(result: Result<Vec<Vec<S>>, ParseError>) -> Result<
    Seq<Seq<S>>,
    ParseError,
> {
    match result {
        Ok(channels) => Ok(sound_of(channels@)),
        Err(error) => Err(error),
    }
}

/// What rebuilding a frame does to a state and returns.
pub open spec fn frame_decoded<S: Copy, G, B, A, M, Y>(
    before: JocObjectDecoderState<S>,
    after: JocObjectDecoderState<S>,
    core: CoreModel<S>,
    joc: JocPayload<G>,
    analyse: A,
    mix: M,
    gather: Y,
    result: Result<Seq<Seq<S>>, ParseError>,
) -> bool where
    A: Fn(&[S]) -> B,
    M: Fn(&Vec<B>, &ObjectMix, usize) -> [S; 128],
    Y: Fn(&[S], &G) -> [S; 64],
 {
    exists|planned: JocObjectDecoderState<S>, plan: Result<FramePlan, ParseError>|
        {
            &&& #[trigger] frame_planned(before, planned, core, joc, plan)
            &&& match plan {
                Err(reason) => {
                    &&& result matches Err(error) && error == reason
                    &&& after == planned
                },
                Ok(plan) => {
                    &&& result matches Ok(sound)
                    &&& slots_decoded(
                        planned,
                        after,
                        core,
                        joc,
                        plan,
                        sound,
                        analyse,
                        mix,
                        gather,
                    )
                },
            }
        }
}

/// Writes `block` over `sound` from `from` on.
fn write_block<S: Copy>(sound: &mut Vec<S>, from: usize, block: &[S; 64])
    requires
        from + 64 <= old(sound)@.len(),
    ensures
        final(sound)@ == with_block(old(sound)@, from as int, block@),
{
    let count: usize = sound.len();
    let mut offset: usize = 0;
    while offset < 64
        invariant
            offset <= 64,
            from + 64 <= sound@.len() == count,
            sound@ == with_block(old(sound)@, from as int, block@.take(offset as int)),
        decreases 64 - offset,
    {
        sound[from + offset] = block[offset];
        offset = offset + 1;
        assert(sound@ =~= with_block(old(sound)@, from as int, block@.take(offset as int)));
    }
    assert(block@.take(64) =~= block@);
}

/// A frame of silence for every object.
fn silent_channels<S: Copy>(silence: S, objects: usize, count: usize) -> (channels: Vec<Vec<S>>)
    ensures
        sound_of(channels@) == silent_sound(silence, objects as nat, count as nat),
{
    let mut channels: Vec<Vec<S>> = Vec::new();
    let mut object: usize = 0;
    while object < objects
        invariant
            object <= objects,
            channels@.len() == object,
            forall|seen: int|
                0 <= seen < object ==> (#[trigger] channels@[seen])@ == Seq::new(
                    count as nat,
                    |place: int| silence,
                ),
        decreases objects - object,
    {
        let mut channel: Vec<S> = Vec::new();
        while channel.len() < count
            invariant
                channel@.len() <= count,
                forall|place: int| 0 <= place < channel@.len() ==> channel@[place] == silence,
            decreases count - channel@.len(),
        {
            channel.push(silence);
        }
        assert(channel@ =~= Seq::new(count as nat, |place: int| silence));
        channels.push(channel);
        object = object + 1;
    }
    assert(sound_of(channels@) =~= silent_sound(silence, objects as nat, count as nat));
    channels
}

impl<S: Copy> JocObjectDecoderState<S> {
    /// How the objects of the most recent frame were mixed.
    pub fn last_frame_matrices(&self) -> (mixes: &Vec<ObjectMix>)
        ensures
            *mixes == self.last_frame,
    {
        &self.last_frame
    }

    /// Analyses a timeslot of the core.
    fn analyse_slot<B, A>(
        &mut self,
        core: &CorePcmFrame<S>,
        plan: &FramePlan,
        slot: usize,
        analyse: &A,
    ) -> (analysis: Vec<B>) where A: Fn(&[S]) -> B
        requires
            old(self).banks_wf(),
            old(self).forward_qmf@.len() == plan.input_indices@.len(),
            slot * 64 + 64 <= usize::MAX,
            forall|channel: int|
                0 <= channel < plan.input_indices@.len() ==> {
                    &&& #[trigger] plan.input_indices@[channel] < core.fullband_channels@.len()
                    &&& core.fullband_channels@[plan.input_indices@[channel] as int]@.len()
                        >= slot * 64 + 64
                },
            forall|window: &[S]| #[trigger] analyse.requires((window,)),
        ensures
            final(self).banks_wf(),
            *final(self) == (JocObjectDecoderState {
                forward_qmf: final(self).forward_qmf,
                ..*old(self)
            }),
            final(self).forward_qmf@.len() == old(self).forward_qmf@.len(),
            analysis@.len() == plan.input_indices@.len(),
            forall|channel: int|
                0 <= channel < plan.input_indices@.len() ==> channel_analysed(
                    old(self).forward_qmf@[channel],
                    final(self).forward_qmf@[channel],
                    slot_samples(core@, plan.input_indices@[channel] as int, slot as int),
                    *analyse,
                    #[trigger] analysis@[channel],
                ),
    {
        let from: usize = slot * 64;
        let mut analysis: Vec<B> = Vec::new();
        let mut channel: usize = 0;
        while channel < plan.input_indices.len()
            invariant
                channel <= plan.input_indices@.len(),
                from == slot * 64,
                from + 64 <= usize::MAX,
                self.banks_wf(),
                *self == (JocObjectDecoderState { forward_qmf: self.forward_qmf, ..*old(self) }),
                self.forward_qmf@.len() == old(self).forward_qmf@.len(),
                old(self).forward_qmf@.len() == plan.input_indices@.len(),
                analysis@.len() == channel,
                forall|other: int|
                    0 <= other < plan.input_indices@.len() ==> {
                        &&& #[trigger] plan.input_indices@[other] < core.fullband_channels@.len()
                        &&& core.fullband_channels@[plan.input_indices@[other] as int]@.len()
                            >= slot * 64 + 64
                    },
                forall|window: &[S]| #[trigger] analyse.requires((window,)),
                forall|ahead: int|
                    channel <= ahead < self.forward_qmf@.len()
                        ==> #[trigger] self.forward_qmf@[ahead] == old(self).forward_qmf@[ahead],
                forall|seen: int|
                    0 <= seen < channel ==> channel_analysed(
                        old(self).forward_qmf@[seen],
                        self.forward_qmf@[seen],
                        slot_samples(core@, plan.input_indices@[seen] as int, slot as int),
                        *analyse,
                        #[trigger] analysis@[seen],
                    ),
            decreases plan.input_indices.len() - channel,
        {
            let index: usize = plan.input_indices[channel];
            let input: &[S] = slice_subrange(
                core.fullband_channels[index].as_slice(),
                from,
                from + 64,
            );
            assert(input@ == slot_samples(core@, index as int, slot as int));
            let ghost before = self.forward_qmf@;
            assert(before[channel as int] == old(self).forward_qmf@[channel as int]);
            let subbands: B = self.forward_qmf[channel].process_forward(input, analyse);
            analysis.push(subbands);
            channel = channel + 1;
        }
        analysis
    }

    /// Goes on with one object's synthesis and sound.
    fn mix_object<G, B, M, Y>(
        &mut self,
        joc: &JocPayload<G>,
        slot: usize,
        object: usize,
        analysis: &Vec<B>,
        sound: &mut Vec<S>,
        mix: &M,
        gather: &Y,
    ) where M: Fn(&Vec<B>, &ObjectMix, usize) -> [S; 128], Y: Fn(&[S], &G) -> [S; 64]
        requires
            old(self).banks_wf(),
            object < old(self).inverse_qmf@.len(),
            object < old(self).inverse_history@.len(),
            object < old(self).last_frame@.len(),
            object < joc.objects@.len(),
            slot * 64 + 64 <= old(sound)@.len(),
            forall|given: &Vec<B>, mixed: &ObjectMix, place: usize| #[trigger]
                mix.requires((given, mixed, place)),
            forall|window: &[S]| #[trigger] gather.requires((window, &joc.gain)),
        ensures
            final(self).banks_wf(),
            *final(self) == (JocObjectDecoderState {
                inverse_qmf: final(self).inverse_qmf,
                inverse_history: final(self).inverse_history,
                ..*old(self)
            }),
            final(self).inverse_qmf@.len() == old(self).inverse_qmf@.len(),
            final(self).inverse_history@.len() == old(self).inverse_history@.len(),
            forall|other: int|
                0 <= other < old(self).inverse_qmf@.len() && other != object
                    ==> #[trigger] final(self).inverse_qmf@[other] == old(self).inverse_qmf@[other],
            forall|other: int|
                0 <= other < old(self).inverse_history@.len() && other != object
                    ==> #[trigger] final(self).inverse_history@[other] == old(
                    self,
                ).inverse_history@[other],
            final(sound)@.len() == old(sound)@.len(),
            object_mixed(
                *old(self),
                *final(self),
                *joc,
                old(self).last_frame@[object as int],
                slot as int,
                object as int,
                *analysis,
                old(sound)@,
                final(sound)@,
                *mix,
                *gather,
            ),
    {
        if !self.feed_object(object, joc.objects[object].active) {
            return;
        }
        let mixed: &ObjectMix = &self.last_frame[object];
        let block: [S; 128] = mix(analysis, mixed, slot);
        assert(mix.ensures((analysis, mixed, slot), block));
        let output: [S; 64] = self.inverse_qmf[object].process_inverse(&block, &joc.gain, gather);
        let count: usize = sound.len();
        assert(slot * 64 + 64 <= count);
        write_block(sound, slot * 64, &output);
    }

    /// Rebuilds one timeslot of every object.
    fn decode_slot<G, B, A, M, Y>(
        &mut self,
        core: &CorePcmFrame<S>,
        joc: &JocPayload<G>,
        plan: &FramePlan,
        slot: usize,
        objects: &mut Vec<Vec<S>>,
        analyse: &A,
        mix: &M,
        gather: &Y,
    ) where
        A: Fn(&[S]) -> B,
        M: Fn(&Vec<B>, &ObjectMix, usize) -> [S; 128],
        Y: Fn(&[S], &G) -> [S; 64],

        requires
            old(self).banks_wf(),
            old(self).forward_qmf@.len() == joc.channel_count,
            old(self).inverse_qmf@.len() == joc.object_count,
            old(self).inverse_history@.len() == joc.object_count,
            plan.input_indices@.len() == joc.channel_count,
            old(self).last_frame@.len() == joc.object_count,
            joc.object_count <= joc.objects@.len(),
            old(objects)@.len() == joc.object_count,
            slot * 64 + 64 <= usize::MAX,
            forall|object: int|
                0 <= object < joc.object_count ==> (#[trigger] old(objects)@[object])@.len() >= slot
                    * 64 + 64,
            forall|channel: int|
                0 <= channel < plan.input_indices@.len() ==> {
                    &&& #[trigger] plan.input_indices@[channel] < core.fullband_channels@.len()
                    &&& core.fullband_channels@[plan.input_indices@[channel] as int]@.len()
                        >= slot * 64 + 64
                },
            forall|window: &[S]| #[trigger] analyse.requires((window,)),
            forall|analysis: &Vec<B>, mixed: &ObjectMix, place: usize| #[trigger]
                mix.requires((analysis, mixed, place)),
            forall|window: &[S]| #[trigger] gather.requires((window, &joc.gain)),
        ensures
            final(self).banks_wf(),
            final(objects)@.len() == old(objects)@.len(),
            forall|object: int|
                0 <= object < joc.object_count ==> (#[trigger] final(objects)@[object])@.len()
                    == old(objects)@[object]@.len(),
            slot_decoded(
                *old(self),
                *final(self),
                core@,
                *joc,
                *plan,
                slot as int,
                sound_of(old(objects)@),
                sound_of(final(objects)@),
                *analyse,
                *mix,
                *gather,
            ),
    {
        let analysis: Vec<B> = self.analyse_slot(core, plan, slot, analyse);
        let ghost analysed_state = *self;
        let ghost first = old(objects)@;
        let mut object: usize = 0;
        while object < joc.object_count
            invariant
                object <= joc.object_count,
                joc.object_count <= joc.objects@.len(),
                analysed_state.last_frame@.len() == joc.object_count,
                analysed_state.banks_wf(),
                self.banks_wf(),
                *self == (JocObjectDecoderState {
                    inverse_qmf: self.inverse_qmf,
                    inverse_history: self.inverse_history,
                    ..analysed_state
                }),
                analysed_state.inverse_qmf@.len() == joc.object_count,
                analysed_state.inverse_history@.len() == joc.object_count,
                self.inverse_qmf@.len() == joc.object_count,
                self.inverse_history@.len() == joc.object_count,
                objects@.len() == joc.object_count,
                first.len() == joc.object_count,
                forall|other: int|
                    0 <= other < joc.object_count ==> (#[trigger] first[other])@.len() >= slot * 64
                        + 64,
                forall|other: int|
                    0 <= other < joc.object_count ==> (#[trigger] objects@[other])@.len()
                        == first[other]@.len(),
                forall|ahead: int|
                    object <= ahead < joc.object_count ==> #[trigger] self.inverse_qmf@[ahead]
                        == analysed_state.inverse_qmf@[ahead],
                forall|ahead: int|
                    object <= ahead < joc.object_count ==> #[trigger] self.inverse_history@[ahead]
                        == analysed_state.inverse_history@[ahead],
                forall|ahead: int|
                    object <= ahead < joc.object_count ==> #[trigger] objects@[ahead]
                        == first[ahead],
                forall|seen: int|
                    0 <= seen < object ==> object_mixed(
                        analysed_state,
                        *self,
                        *joc,
                        analysed_state.last_frame@[seen],
                        slot as int,
                        seen,
                        analysis,
                        first[seen]@,
                        (#[trigger] objects@[seen])@,
                        *mix,
                        *gather,
                    ),
                forall|given: &Vec<B>, mixed: &ObjectMix, place: usize| #[trigger]
                    mix.requires((given, mixed, place)),
                forall|window: &[S]| #[trigger] gather.requires((window, &joc.gain)),
            decreases joc.object_count - object,
        {
            let ghost before = *self;
            let ghost sound_before = objects@;
            assert(objects@[object as int] == first[object as int]);
            self.mix_object(
                joc,
                slot,
                object,
                &analysis,
                &mut objects[object],
                mix,
                gather,
            );
            proof {
                assert(before.inverse_qmf@[object as int]
                    == analysed_state.inverse_qmf@[object as int]);
                assert(before.inverse_history@[object as int]
                    == analysed_state.inverse_history@[object as int]);
                assert forall|seen: int| 0 <= seen < object + 1 implies object_mixed(
                    analysed_state,
                    *self,
                    *joc,
                    analysed_state.last_frame@[seen],
                    slot as int,
                    seen,
                    analysis,
                    first[seen]@,
                    (#[trigger] objects@[seen])@,
                    *mix,
                    *gather,
                ) by {
                    if seen < object {
                        assert(objects@[seen] == sound_before[seen]);
                        assert(self.inverse_qmf@[seen] == before.inverse_qmf@[seen]);
                        assert(self.inverse_history@[seen] == before.inverse_history@[seen]);
                    }
                }
            }
            object = object + 1;
        }
        proof {
            let sound_before = sound_of(old(objects)@);
            let sound_after = sound_of(objects@);
            assert(analysis@.len() == joc.channel_count);
            assert forall|other: int| 0 <= other < joc.object_count implies object_mixed(
                *old(self),
                *self,
                *joc,
                old(self).last_frame@[other],
                slot as int,
                other,
                analysis,
                sound_before[other],
                #[trigger] sound_after[other],
                *mix,
                *gather,
            ) by {
                assert(sound_after[other] == objects@[other]@);
            }
        }
    }

    /// Rebuilds the objects of a frame from its core.
    pub fn decode_frame<G, B, A, M, Y>(
        &mut self,
        core: &CorePcmFrame<S>,
        joc: &JocPayload<G>,
        analyse: &A,
        mix: &M,
        gather: &Y,
    ) -> (result: Result<Vec<Vec<S>>, ParseError>) where
        A: Fn(&[S]) -> B,
        M: Fn(&Vec<B>, &ObjectMix, usize) -> [S; 128],
        Y: Fn(&[S], &G) -> [S; 64],

        requires
            old(self).banks_wf(),
            frame_fits(core@, *joc),
            forall|window: &[S]| #[trigger] analyse.requires((window,)),
            forall|analysis: &Vec<B>, mixed: &ObjectMix, place: usize| #[trigger]
                mix.requires((analysis, mixed, place)),
            forall|window: &[S]| #[trigger] gather.requires((window, &joc.gain)),
        ensures
            final(self).banks_wf(),
            frame_decoded(
                *old(self),
                *final(self),
                core@,
                *joc,
                *analyse,
                *mix,
                *gather,
                sound_result(result),
            ),
            result matches Ok(objects) ==> {
                &&& objects@.len() == joc.object_count
                &&& forall|object: int|
                    0 <= object < joc.object_count ==> (#[trigger] objects@[object])@.len()
                        == samples_of(core@)
            },
    {
        let planned: Result<FramePlan, ParseError> = self.plan_frame(core, joc);
        let ghost planned_seen = planned;
        let ghost start = *self;
        assert(frame_planned(*old(self), start, core@, *joc, planned_seen));
        let plan: FramePlan = match planned {
            Ok(plan) => plan,
            Err(error) => {
                return Err(error);
            },
        };
        let samples: usize = core.samples_per_channel();
        let timeslots: usize = plan.timeslots;
        assert(timeslots * 64 == samples);
        let mut objects: Vec<Vec<S>> = silent_channels(self.silence, joc.object_count, samples);
        proof {
            lemma_objects_present(joc.objects@, joc.channel_count, joc.object_count as int, 0);
            assert(sound_of(objects@).len() == joc.object_count);
            assert forall|object: int| 0 <= object < joc.object_count implies (
            #[trigger] objects@[object])@.len() == samples by {
                assert(sound_of(objects@)[object] == objects@[object]@);
                assert(sound_of(objects@)[object].len() == samples);
            }
        }
        let ghost mut states = seq![start];
        let ghost mut sounds = seq![sound_of(objects@)];
        let mut slot: usize = 0;
        while slot < timeslots
            invariant
                slot <= timeslots == plan.timeslots,
                timeslots * 64 == samples,
                samples == samples_of(core@),
                self.banks_wf(),
                self.forward_qmf@.len() == joc.channel_count,
                self.inverse_qmf@.len() == joc.object_count,
                self.inverse_history@.len() == joc.object_count,
                plan.input_indices@.len() == joc.channel_count,
                self.last_frame@.len() == joc.object_count,
                joc.object_count <= joc.objects@.len(),
                objects@.len() == joc.object_count,
                forall|object: int|
                    0 <= object < joc.object_count ==> (#[trigger] objects@[object])@.len()
                        == samples,
                core_feeds(core@, joc.channel_count),
                forall|index: int|
                    0 <= index < joc.channel_count ==> input_place(core@.order, joc_input(index))
                        == Some(#[trigger] plan.input_indices@[index] as int),
                forall|window: &[S]| #[trigger] analyse.requires((window,)),
                forall|analysis: &Vec<B>, mixed: &ObjectMix, place: usize| #[trigger]
                    mix.requires((analysis, mixed, place)),
                forall|window: &[S]| #[trigger] gather.requires((window, &joc.gain)),
                slots_traced(
                    states,
                    sounds,
                    slot as int,
                    start,
                    core@,
                    *joc,
                    plan,
                    *analyse,
                    *mix,
                    *gather,
                ),
                states.last() == *self,
                sounds.last() == sound_of(objects@),
            decreases timeslots - slot,
        {
            let ghost states_before = states;
            let ghost sounds_before = sounds;
            assert(slot * 64 + 64 <= samples);
            assert forall|channel: int| 0 <= channel < plan.input_indices@.len() implies {
                &&& #[trigger] plan.input_indices@[channel] < core.fullband_channels@.len()
                &&& core.fullband_channels@[plan.input_indices@[channel] as int]@.len() >= slot * 64
                    + 64
            } by {
                let place = plan.input_indices@[channel] as int;
                assert(input_place(core@.order, joc_input(channel)) == Some(place));
                assert(core@.channels[place] == core.fullband_channels@[place]@);
            }
            self.decode_slot(core, joc, &plan, slot, &mut objects, analyse, mix, gather);
            proof {
                states = states.push(*self);
                sounds = sounds.push(sound_of(objects@));
                assert forall|other: int| 0 <= other < slot + 1 implies #[trigger] slot_traced(
                    states,
                    sounds,
                    other,
                    core@,
                    *joc,
                    plan,
                    *analyse,
                    *mix,
                    *gather,
                ) by {
                    if other < slot {
                        assert(slot_traced(
                            states_before,
                            sounds_before,
                            other,
                            core@,
                            *joc,
                            plan,
                            *analyse,
                            *mix,
                            *gather,
                        ));
                    }
                }
            }
            slot = slot + 1;
        }
        Ok(objects)
    }

    /// Rebuilds the objects of a frame from its core, into `objects`, which an
    /// error leaves as they were.
    pub fn decode_frame_into<G, B, A, M, Y>(
        &mut self,
        core: &CorePcmFrame<S>,
        joc: &JocPayload<G>,
        objects: &mut Vec<Vec<S>>,
        analyse: &A,
        mix: &M,
        gather: &Y,
    ) -> (result: Result<(), ParseError>) where
        A: Fn(&[S]) -> B,
        M: Fn(&Vec<B>, &ObjectMix, usize) -> [S; 128],
        Y: Fn(&[S], &G) -> [S; 64],

        requires
            old(self).banks_wf(),
            frame_fits(core@, *joc),
            forall|window: &[S]| #[trigger] analyse.requires((window,)),
            forall|analysis: &Vec<B>, mixed: &ObjectMix, place: usize| #[trigger]
                mix.requires((analysis, mixed, place)),
            forall|window: &[S]| #[trigger] gather.requires((window, &joc.gain)),
        ensures
            final(self).banks_wf(),
            frame_decoded(
                *old(self),
                *final(self),
                core@,
                *joc,
                *analyse,
                *mix,
                *gather,
                match result {
                    Ok(_) => Ok(sound_of(final(objects)@)),
                    Err(error) => Err(error),
                },
            ),
            result is Err ==> *final(objects) == *old(objects),
    {
        match self.decode_frame(core, joc, analyse, mix, gather) {
            Ok(decoded) => {
                *objects = decoded;
                Ok(())
            },
            Err(error) => Err(error),
        }
    }
}

/// The objects of a payload without an error are all there, and each can be
/// decoded.
proof fn lemma_objects_present(
    objects: Seq<JocObject>,
    channel_count: usize,
    object_count: int,
    index: int,
)
    requires
        objects_error(objects, channel_count, object_count, index) is None,
        index <= objects.len(),
    ensures
        object_count <= objects.len(),
        forall|place: int|
            index <= place < object_count ==> points_result(
                #[trigger] objects[place],
                channel_count,
            ) is Ok,
    decreases object_count - index,
{
    if index < object_count {
        lemma_objects_present(objects, channel_count, object_count, index + 1);
    }
}

/// An object that is not active and never was is silent throughout a frame, and
/// stays one that never was.
pub proof fn objects_that_never_played_are_silent<S: Copy, G, B, A, M, Y>(
    first: JocObjectDecoderState<S>,
    last: JocObjectDecoderState<S>,
    core: CoreModel<S>,
    joc: JocPayload<G>,
    plan: FramePlan,
    sound: Seq<Seq<S>>,
    analyse: A,
    mix: M,
    gather: Y,
    object: int,
) where
    A: Fn(&[S]) -> B,
    M: Fn(&Vec<B>, &ObjectMix, usize) -> [S; 128],
    Y: Fn(&[S], &G) -> [S; 64],

    requires
        slots_decoded(first, last, core, joc, plan, sound, analyse, mix, gather),
        0 <= object < joc.object_count,
        !joc.objects@[object].active,
        !first.inverse_history@[object],
    ensures
        !last.inverse_history@[object],
        sound.len() == joc.object_count,
        sound[object] == Seq::new((plan.timeslots * 64) as nat, |place: int| first.silence),
{
    let (states, sounds) = choose|
        states: Seq<JocObjectDecoderState<S>>,
        sounds: Seq<Seq<Seq<S>>>,
    |
        {
            &&& #[trigger] slots_traced(
                states,
                sounds,
                plan.timeslots as int,
                first,
                core,
                joc,
                plan,
                analyse,
                mix,
                gather,
            )
            &&& states.last() == last
            &&& sounds.last() == sound
        };
    lemma_silent_so_far(
        states,
        sounds,
        plan.timeslots as int,
        first,
        core,
        joc,
        plan,
        analyse,
        mix,
        gather,
        object,
        plan.timeslots as int,
    );
}

/// An object that is not active and never was is silent up to timeslot `slot`.
proof fn lemma_silent_so_far<S: Copy, G, B, A, M, Y>(
    states: Seq<JocObjectDecoderState<S>>,
    sounds: Seq<Seq<Seq<S>>>,
    slots: int,
    first: JocObjectDecoderState<S>,
    core: CoreModel<S>,
    joc: JocPayload<G>,
    plan: FramePlan,
    analyse: A,
    mix: M,
    gather: Y,
    object: int,
    slot: int,
) where
    A: Fn(&[S]) -> B,
    M: Fn(&Vec<B>, &ObjectMix, usize) -> [S; 128],
    Y: Fn(&[S], &G) -> [S; 64],

    requires
        slots_traced(states, sounds, slots, first, core, joc, plan, analyse, mix, gather),
        0 <= object < joc.object_count,
        !joc.objects@[object].active,
        !first.inverse_history@[object],
        0 <= slot <= slots,
    ensures
        !states[slot].inverse_history@[object],
        sounds[slot].len() == joc.object_count,
        sounds[slot][object] == Seq::new((plan.timeslots * 64) as nat, |place: int| first.silence),
    decreases slot,
{
    if slot > 0 {
        lemma_silent_so_far(
            states,
            sounds,
            slots,
            first,
            core,
            joc,
            plan,
            analyse,
            mix,
            gather,
            object,
            slot - 1,
        );
        assert(slot_traced(states, sounds, slot - 1, core, joc, plan, analyse, mix, gather));
        assert(sounds[slot][object] == sounds[slot - 1][object]);
    }
}

/// Two matrices have the same gains.
pub open spec fn same_gains(left: Seq<[Gain; 64]>, right: Seq<[Gain; 64]>) -> bool {
    &&& left.len() == right.len()
    &&& forall|channel: int, subband: int|
        0 <= channel < left.len() && 0 <= subband < 64 ==> #[trigger] left[channel]@[subband]
            == right[channel]@[subband]
}

/// Two objects are mixed alike.
pub open spec fn same_mix(left: ObjectMix, right: ObjectMix) -> bool {
    &&& left.slots@ == right.slots@
    &&& same_gains(left.previous@, right.previous@)
    &&& same_gains(left.points@[0]@, right.points@[0]@)
    &&& same_gains(left.points@[1]@, right.points@[1]@)
}

/// Two states hold the same audio history.
pub open spec fn same_history<S: Copy>(
    left: JocObjectDecoderState<S>,
    right: JocObjectDecoderState<S>,
) -> bool {
    &&& left.forward_qmf@.len() == right.forward_qmf@.len()
    &&& left.inverse_qmf@.len() == right.inverse_qmf@.len()
    &&& left.inverse_history@ == right.inverse_history@
    &&& forall|channel: int|
        0 <= channel < left.forward_qmf@.len() ==> (
        #[trigger] left.forward_qmf@[channel]).forward.window()
            == right.forward_qmf@[channel].forward.window()
    &&& forall|object: int|
        0 <= object < left.inverse_qmf@.len() ==> (
        #[trigger] left.inverse_qmf@[object]).inverse.window()
            == right.inverse_qmf@[object].inverse.window()
}

/// What a state that holds no history is brought to has seen silence only.
proof fn lemma_reconfigured_cold<S: Copy>(
    cold: JocObjectDecoderState<S>,
    state: JocObjectDecoderState<S>,
    channel_count: int,
    object_count: int,
)
    requires
        cold.cold(),
        reconfigured(cold, state, channel_count, object_count),
        0 <= channel_count,
        0 <= object_count,
    ensures
        state.inverse_history@ == Seq::new(object_count as nat, |object: int| false),
        forall|channel: int|
            0 <= channel < channel_count ==> (
            #[trigger] state.forward_qmf@[channel]).forward.window() == Seq::new(
                FORWARD_WINDOW as nat,
                |place: int| cold.silence,
            ),
        forall|object: int|
            0 <= object < object_count ==> (
            #[trigger] state.inverse_qmf@[object]).inverse.window() == Seq::new(
                INVERSE_WINDOW as nat,
                |place: int| cold.silence,
            ),
        forall|object: int|
            0 <= object < object_count ==> is_silent_matrix(
                (#[trigger] state.prev_matrix@[object])@,
            ),
        forall|object: int, point: int|
            0 <= object < object_count && 0 <= point < 2 ==> is_silent_matrix(
                (#[trigger] state.mix_matrix@[object]@[point])@,
            ),
        forall|object: int|
            0 <= object < object_count ==> (#[trigger] state.timeslot_offsets@[object])@ == seq![
                0u8,
                0u8,
            ],
{
    assert(state.inverse_history@ =~= Seq::new(object_count as nat, |object: int| false));
    assert forall|channel: int| 0 <= channel < channel_count implies (
    #[trigger] state.forward_qmf@[channel]).forward.window() == Seq::new(
        FORWARD_WINDOW as nat,
        |place: int| cold.silence,
    ) by {
        let bank = state.forward_qmf@[channel];
        assert(bank.wf());
        bank.forward.wf_window();
        assert(bank.forward.window() =~= Seq::new(
            FORWARD_WINDOW as nat,
            |place: int| cold.silence,
        ));
    }
    assert forall|object: int| 0 <= object < object_count implies (
    #[trigger] state.inverse_qmf@[object]).inverse.window() == Seq::new(
        INVERSE_WINDOW as nat,
        |place: int| cold.silence,
    ) by {
        let bank = state.inverse_qmf@[object];
        assert(bank.wf());
        bank.inverse.wf_window();
        assert(bank.inverse.window() =~= Seq::new(
            INVERSE_WINDOW as nat,
            |place: int| cold.silence,
        ));
    }
    assert forall|object: int| 0 <= object < object_count implies (
    #[trigger] state.timeslot_offsets@[object])@ == seq![0u8, 0u8] by {
        assert(state.timeslot_offsets@[object]@[0] == 0);
        assert(state.timeslot_offsets@[object]@[1] == 0);
        assert(state.timeslot_offsets@[object]@ =~= seq![0u8, 0u8]);
    }
}

/// A frame that starts without history is rebuilt as it would be in any other
/// state without history, whatever came before: the objects are mixed alike,
/// and the filter banks hold the same.
pub proof fn cold_frames_are_rebuilt_alike<S: Copy, G>(
    left: JocObjectDecoderState<S>,
    left_planned: JocObjectDecoderState<S>,
    left_plan: FramePlan,
    right: JocObjectDecoderState<S>,
    right_planned: JocObjectDecoderState<S>,
    right_plan: FramePlan,
    core: CoreModel<S>,
    joc: JocPayload<G>,
)
    requires
        left.cold(),
        right.cold(),
        left.silence == right.silence,
        frame_planned(left, left_planned, core, joc, Ok(left_plan)),
        frame_planned(right, right_planned, core, joc, Ok(right_plan)),
    ensures
        left_plan.timeslots == right_plan.timeslots,
        left_plan.input_indices@ == right_plan.input_indices@,
        left_planned.last_frame@.len() == right_planned.last_frame@.len(),
        forall|object: int|
            0 <= object < left_planned.last_frame@.len() ==> same_mix(
                #[trigger] left_planned.last_frame@[object],
                right_planned.last_frame@[object],
            ),
        same_history(left_planned, right_planned),
{
    let channels = joc.channel_count as int;
    let objects = joc.object_count as int;
    let left_middle = choose|middle: JocObjectDecoderState<S>|
        {
            &&& #[trigger] reconfigured(left, middle, channels, objects)
            &&& same_banks(middle, left_planned)
            &&& forall|index: int|
                0 <= index < joc.object_count ==> object_built(
                    middle,
                    left_planned,
                    joc.objects@[index],
                    joc.channel_count,
                    left_plan.timeslots as int,
                    index,
                    #[trigger] left_planned.last_frame@[index],
                )
        };
    let right_middle = choose|middle: JocObjectDecoderState<S>|
        {
            &&& #[trigger] reconfigured(right, middle, channels, objects)
            &&& same_banks(middle, right_planned)
            &&& forall|index: int|
                0 <= index < joc.object_count ==> object_built(
                    middle,
                    right_planned,
                    joc.objects@[index],
                    joc.channel_count,
                    right_plan.timeslots as int,
                    index,
                    #[trigger] right_planned.last_frame@[index],
                )
        };
    lemma_reconfigured_cold(left, left_middle, channels, objects);
    lemma_reconfigured_cold(right, right_middle, channels, objects);
    lemma_objects_present(joc.objects@, joc.channel_count, objects, 0);
    assert(left_plan.input_indices@ =~= right_plan.input_indices@) by {
        assert forall|index: int| 0 <= index < channels implies left_plan.input_indices@[index]
            == right_plan.input_indices@[index] by {
            assert(input_place(core.order, joc_input(index)) == Some(
                left_plan.input_indices@[index] as int,
            ));
            assert(input_place(core.order, joc_input(index)) == Some(
                right_plan.input_indices@[index] as int,
            ));
        }
    }
    assert forall|object: int| 0 <= object < objects implies same_mix(
        #[trigger] left_planned.last_frame@[object],
        right_planned.last_frame@[object],
    ) by {
        let one = left_planned.last_frame@[object];
        let other = right_planned.last_frame@[object];
        assert(object_built(
            left_middle,
            left_planned,
            joc.objects@[object],
            joc.channel_count,
            left_plan.timeslots as int,
            object,
            one,
        ));
        assert(object_built(
            right_middle,
            right_planned,
            joc.objects@[object],
            joc.channel_count,
            right_plan.timeslots as int,
            object,
            other,
        ));
        assert(left_middle.timeslot_offsets@[object]@ == right_middle.timeslot_offsets@[object]@);
        assert(one.slots@ =~= other.slots@);
        assert(is_silent_matrix(left_middle.prev_matrix@[object]@));
        assert(is_silent_matrix(right_middle.prev_matrix@[object]@));
        assert forall|point: int| 0 <= point < 2 implies same_gains(
            #[trigger] one.points@[point]@,
            other.points@[point]@,
        ) by {
            assert(is_silent_matrix(left_middle.mix_matrix@[object]@[point]@));
            assert(is_silent_matrix(right_middle.mix_matrix@[object]@[point]@));
            assert(left_planned.mix_matrix@[object]@[point]@ == one.points@[point]@);
            assert(right_planned.mix_matrix@[object]@[point]@ == other.points@[point]@);
            let bands_index = joc.objects@[object].bands_index->0 as int;
            if joc.objects@[object].active && point < joc.objects@[object].data_points {
                assert forall|channel: int, subband: int| 0 <= channel < channels && 0 <= subband
                    < 64 implies #[trigger] one.points@[point]@[channel]@[subband]
                    == other.points@[point]@[channel]@[subband] by {
                    bands_follow_subbands(bands_index, subband, subband);
                    let band = band_of(bands_index, subband);
                    assert(left_middle.mix_matrix@[object]@[point]@[channel]@[band] == no_gain());
                    assert(right_middle.mix_matrix@[object]@[point]@[channel]@[band] == no_gain());
                }
            }
        }
        assert(same_gains(one.points@[0]@, other.points@[0]@));
        assert(same_gains(one.points@[1]@, other.points@[1]@));
    }
    assert forall|channel: int| 0 <= channel < left_planned.forward_qmf@.len() implies (
    #[trigger] left_planned.forward_qmf@[channel]).forward.window()
        == right_planned.forward_qmf@[channel].forward.window() by {
        assert(left_middle.forward_qmf@[channel].forward.window()
            == right_middle.forward_qmf@[channel].forward.window());
    }
    assert forall|object: int| 0 <= object < left_planned.inverse_qmf@.len() implies (
    #[trigger] left_planned.inverse_qmf@[object]).inverse.window()
        == right_planned.inverse_qmf@[object].inverse.window() by {
        assert(left_middle.inverse_qmf@[object].inverse.window()
            == right_middle.inverse_qmf@[object].inverse.window());
    }
}

} // verus!
