//! Pairing of the access units of an E-AC-3 stream into presentations.
//!
//! A program larger than 5.1 is carried as a core frame immediately followed by
//! a dependent frame, and the pair describes one span of audio. A plain core is
//! therefore held until the next access unit shows whether it stands alone.

use crate::eac3::frame::{
    chanmap_positions, copied_core, lines_up, overlaid, overlay_dependent, CoreModel, CorePcmFrame,
};
use crate::eac3::pcm::{
    joc_count, lemma_first_joc, AccessUnitInfo, ObjectPcmPushResult, PcmPushResult,
};
use crate::eac3::types::ParseError;
use vstd::prelude::*;

verus! {

/// What an access unit is, as its header shows.
#[derive(Debug, Clone, Copy, PartialEq, Eq, Structural)]
pub enum UnitClass {
    /// An independent frame, or one whose header cannot be read.
    Independent,
    /// A dependent substream.
    Dependent,
    /// A legacy AC-3 frame.
    LegacyAc3,
}

/// An independent frame that the next access unit may pair with.
#[derive(Debug)]
pub enum PendingIndependent<S, G, O> {
    /// A plain frame, not sent yet.
    UnsentCore(PcmPushResult<S, G, O>),
    /// A frame with JOC, already sent. Only the undelayed core that its objects
    /// were rebuilt from is kept.
    EmittedObject { joc_input: CorePcmFrame<S> },
}

/// What goes out.
#[derive(Debug)]
pub enum FrameMessage<S, G, O> {
    Object(ObjectPcmPushResult<S, G, O>),
    Core(PcmPushResult<S, G, O>),
    Silence { sample_count: usize, sample_rate: u32, channel_count: usize },
}

/// What an access unit asks for.
#[derive(Debug)]
pub enum UnitStep<S, G, O> {
    /// Decode it as a legacy AC-3 core.
    DecodeLegacy,
    /// Try to decode its objects, from its own core.
    DecodeObjects,
    /// It belongs to this core, which was not sent yet.
    PairCore(PcmPushResult<S, G, O>),
    /// It belongs to a frame that was sent; its objects can be rebuilt from
    /// this core.
    PairObject { joc_input: CorePcmFrame<S> },
    /// It has nothing to pair with, and its channels cannot stand alone.
    Skip,
}

/// State of one stream, but for the decoders.
#[derive(Debug)]
pub struct StreamState<S, G, O> {
    pub pending_independent: Option<PendingIndependent<S, G, O>>,
    /// A legacy core that was not sent yet.
    pub pending_ac3_core: Option<PcmPushResult<S, G, O>>,
    /// Number of frames sent.
    pub frame_count: u64,
}

/// The core that is held and was not sent yet.
pub open spec fn unsent_core<S, G, O>(state: StreamState<S, G, O>) -> Option<
    PcmPushResult<S, G, O>,
> {
    if state.pending_ac3_core is Some {
        state.pending_ac3_core
    } else {
        match state.pending_independent {
            Some(PendingIndependent::UnsentCore(core)) => Some(core),
            _ => None,
        }
    }
}

/// What a unit asks for, once what came before it is settled.
pub open spec fn unit_step<S, G, O>(state: StreamState<S, G, O>, class: UnitClass) -> UnitStep<
    S,
    G,
    O,
> {
    match class {
        UnitClass::LegacyAc3 => UnitStep::DecodeLegacy,
        UnitClass::Independent => UnitStep::DecodeObjects,
        UnitClass::Dependent => match unsent_core(state) {
            Some(core) => UnitStep::PairCore(core),
            None => match state.pending_independent {
                Some(PendingIndependent::EmittedObject { joc_input }) => UnitStep::PairObject {
                    joc_input,
                },
                _ => UnitStep::Skip,
            },
        },
    }
}

/// The bed of a pair: the core with the dependent's channels laid over it, or
/// the core alone where they do not line up.
pub open spec fn pair_bed<S>(
    core: CoreModel<S>,
    dependent: Option<CoreModel<S>>,
    channel_map: Option<u16>,
) -> CoreModel<S> {
    if dependent is Some && lines_up(core, dependent->0, channel_map) {
        overlaid(core, chanmap_positions(channel_map->0), dependent->0.channels, 0)
    } else {
        core
    }
}

/// Every message that went out was counted, and nothing else was.
pub open spec fn counted<S, G, O>(
    before: StreamState<S, G, O>,
    after: StreamState<S, G, O>,
    sent_before: Seq<FrameMessage<S, G, O>>,
    sent_after: Seq<FrameMessage<S, G, O>>,
) -> bool {
    after.frame_count - before.frame_count == sent_after.len() - sent_before.len()
}

impl<S: Copy, G, O> StreamState<S, G, O> {
    /// At most one of the two buffers is occupied.
    pub open spec fn wf(&self) -> bool {
        self.pending_ac3_core is None || self.pending_independent is None
    }

    /// No access unit is held.
    pub open spec fn settled(&self) -> bool {
        self.pending_ac3_core is None && self.pending_independent is None
    }

    /// The state at the start of a stream.
    pub fn new() -> (state: Self)
        ensures
            state.wf(),
            state.settled(),
            state.frame_count == 0,
    {
        StreamState { pending_independent: None, pending_ac3_core: None, frame_count: 0 }
    }

    /// Sends what is held and has no partner. Returns whether a presentation
    /// without JOC went by.
    pub fn flush_pending(&mut self, out: &mut Vec<FrameMessage<S, G, O>>) -> (gap: bool)
        requires
            old(self).wf(),
            old(self).frame_count < u64::MAX,
        ensures
            counted(*old(self), *final(self), old(out)@, final(out)@),
            final(self).wf(),
            final(self).settled(),
            gap == unsent_core(*old(self)) is Some,
            match unsent_core(*old(self)) {
                Some(core) => {
                    &&& final(out)@ == old(out)@.push(FrameMessage::Core(core))
                    &&& final(self).frame_count == old(self).frame_count + 1
                },
                None => {
                    &&& final(out)@ == old(out)@
                    &&& final(self).frame_count == old(self).frame_count
                },
            },
    {
        let mut gap: bool = false;
        if let Some(PendingIndependent::UnsentCore(core)) = self.pending_independent.take() {
            gap = true;
            self.frame_count = self.frame_count + 1;
            out.push(FrameMessage::Core(core));
        }
        if let Some(core) = self.pending_ac3_core.take() {
            gap = true;
            self.frame_count = self.frame_count + 1;
            out.push(FrameMessage::Core(core));
        }
        gap
    }

    /// Takes an access unit in and says what it asks for. One that is no
    /// dependent first sends what is held, which had no partner; then the
    /// second result says whether a presentation without JOC went by.
    pub fn begin_unit(&mut self, class: UnitClass, out: &mut Vec<FrameMessage<S, G, O>>) -> (step:
        (UnitStep<S, G, O>, bool))
        requires
            old(self).wf(),
            old(self).frame_count < u64::MAX,
        ensures
            counted(*old(self), *final(self), old(out)@, final(out)@),
            final(self).wf(),
            final(self).settled(),
            step.0 == unit_step(*old(self), class),
            if class is Dependent {
                &&& !step.1
                &&& final(out)@ == old(out)@
                &&& final(self).frame_count == old(self).frame_count
            } else {
                &&& step.1 == unsent_core(*old(self)) is Some
                &&& match unsent_core(*old(self)) {
                    Some(core) => {
                        &&& final(out)@ == old(out)@.push(FrameMessage::Core(core))
                        &&& final(self).frame_count == old(self).frame_count + 1
                    },
                    None => {
                        &&& final(out)@ == old(out)@
                        &&& final(self).frame_count == old(self).frame_count
                    },
                }
            },
    {
        match class {
            UnitClass::LegacyAc3 => {
                let gap: bool = self.flush_pending(out);
                (UnitStep::DecodeLegacy, gap)
            },
            UnitClass::Independent => {
                let gap: bool = self.flush_pending(out);
                (UnitStep::DecodeObjects, gap)
            },
            UnitClass::Dependent => {
                if let Some(core) = self.pending_ac3_core.take() {
                    return (UnitStep::PairCore(core), false);
                }
                match self.pending_independent.take() {
                    Some(PendingIndependent::UnsentCore(core)) => (UnitStep::PairCore(core), false),
                    Some(PendingIndependent::EmittedObject { joc_input }) => (
                        UnitStep::PairObject { joc_input },
                        false,
                    ),
                    None => (UnitStep::Skip, false),
                }
            },
        }
    }

    /// A legacy core was decoded: it is held for its partner.
    pub fn legacy_decoded(&mut self, core: PcmPushResult<S, G, O>)
        requires
            old(self).settled(),
        ensures
            final(self).wf(),
            *final(self) == (StreamState { pending_ac3_core: Some(core), ..*old(self) }),
    {
        self.pending_ac3_core = Some(core);
    }

    /// An independent frame was decoded into objects: it is sent at once, and
    /// the core that they were rebuilt from is kept for a JOC dependent.
    pub fn objects_decoded(
        &mut self,
        objects: ObjectPcmPushResult<S, G, O>,
        joc_input: Option<CorePcmFrame<S>>,
        out: &mut Vec<FrameMessage<S, G, O>>,
    )
        requires
            old(self).settled(),
            old(self).frame_count < u64::MAX,
        ensures
            counted(*old(self), *final(self), old(out)@, final(out)@),
            final(self).wf(),
            final(self).frame_count == old(self).frame_count + 1,
            final(self).pending_ac3_core is None,
            final(self).pending_independent == match joc_input {
                Some(core) => Some(
                    PendingIndependent::<S, G, O>::EmittedObject { joc_input: core },
                ),
                None => None,
            },
            final(out)@ == old(out)@.push(FrameMessage::Object(objects)),
    {
        self.frame_count = self.frame_count + 1;
        self.pending_independent = match joc_input {
            Some(joc_input) => Some(PendingIndependent::EmittedObject { joc_input }),
            None => None,
        };
        out.push(FrameMessage::Object(objects));
    }

    /// An independent frame without objects was decoded: the next access unit
    /// decides whether it stands alone.
    pub fn core_decoded(&mut self, core: PcmPushResult<S, G, O>)
        requires
            old(self).settled(),
        ensures
            final(self).wf(),
            *final(self) == (StreamState {
                pending_independent: Some(PendingIndependent::UnsentCore(core)),
                ..*old(self)
            }),
    {
        self.pending_independent = Some(PendingIndependent::UnsentCore(core));
    }

    /// Whether the objects of a dependent are to be rebuilt: it carries JOC.
    pub fn pair_has_objects(info: &AccessUnitInfo<G, O>) -> (objects: bool)
        ensures
            objects == (joc_count(info.payloads@, 0) > 0),
    {
        proof {
            lemma_first_joc(info.payloads@, 0);
        }
        info.first_joc_index().is_some()
    }

    /// A pair was decoded into objects: exactly one message goes out.
    pub fn pair_objects_decoded(
        &mut self,
        objects: ObjectPcmPushResult<S, G, O>,
        out: &mut Vec<FrameMessage<S, G, O>>,
    )
        requires
            old(self).wf(),
            old(self).frame_count < u64::MAX,
        ensures
            counted(*old(self), *final(self), old(out)@, final(out)@),
            final(self).wf(),
            *final(self) == (StreamState {
                frame_count: (old(self).frame_count + 1) as u64,
                ..*old(self)
            }),
            final(out)@ == old(out)@.push(FrameMessage::Object(objects)),
    {
        self.frame_count = self.frame_count + 1;
        out.push(FrameMessage::Object(objects));
    }

    /// A pair without objects: the dependent's channels are merged into the
    /// core, which stands alone where they could not be decoded or do not line
    /// up. Exactly one message goes out, and a presentation without JOC went
    /// by.
    pub fn handle_core_pair(
        &mut self,
        core: PcmPushResult<S, G, O>,
        info: AccessUnitInfo<G, O>,
        dependent: Option<CorePcmFrame<S>>,
        out: &mut Vec<FrameMessage<S, G, O>>,
    )
        requires
            old(self).wf(),
            old(self).frame_count < u64::MAX,
            dependent matches Some(channels) ==> lines_up(
                core.pcm@,
                channels@,
                info.dependent_channel_map,
            ) ==> core.pcm.fullband_channel_order@.len() <= core.pcm.fullband_channels@.len(),
        ensures
            counted(*old(self), *final(self), old(out)@, final(out)@),
            final(self).wf(),
            *final(self) == (StreamState {
                frame_count: (old(self).frame_count + 1) as u64,
                ..*old(self)
            }),
            final(out)@.len() == old(out)@.len() + 1,
            final(out)@.drop_last() == old(out)@,
            final(out)@.last() matches FrameMessage::Core(push) && {
                &&& push.frames_seen == old(self).frame_count + 1
                &&& push.info == info
                &&& push.pcm@ == pair_bed(
                    core.pcm@,
                    match dependent {
                        Some(channels) => Some(channels@),
                        None => None,
                    },
                    info.dependent_channel_map,
                )
            },
    {
        let merged: Option<CorePcmFrame<S>> = match dependent.as_ref() {
            Some(channels) => overlay_dependent(
                &core.pcm,
                channels,
                info.dependent_channel_map,
            ),
            None => None,
        };
        let pcm: CorePcmFrame<S> = match merged {
            Some(bed) => bed,
            None => core.pcm,
        };
        self.frame_count = self.frame_count + 1;
        out.push(
            FrameMessage::Core(PcmPushResult { frames_seen: self.frame_count, info, pcm }),
        );
        assert(out@.drop_last() =~= old(out)@);
    }

    /// An access unit could not be decoded. All decoders start over and what is
    /// held is stale. A strict stream stops, which is returned as `false`;
    /// another one sends silence in its place.
    pub fn surface_decode_err(
        &mut self,
        strict_mode: bool,
        sample_count: usize,
        sample_rate: u32,
        channel_count: usize,
        out: &mut Vec<FrameMessage<S, G, O>>,
    ) -> (goes_on: bool)
        requires
            old(self).frame_count < u64::MAX,
        ensures
            counted(*old(self), *final(self), old(out)@, final(out)@),
            final(self).wf(),
            final(self).settled(),
            goes_on == !strict_mode,
            if strict_mode {
                &&& final(self).frame_count == old(self).frame_count
                &&& final(out)@ == old(out)@
            } else {
                &&& final(self).frame_count == old(self).frame_count + 1
                &&& final(out)@ == old(out)@.push(
                    FrameMessage::Silence { sample_count, sample_rate, channel_count },
                )
            },
    {
        self.pending_independent = None;
        self.pending_ac3_core = None;
        if strict_mode {
            return false;
        }
        self.frame_count = self.frame_count + 1;
        out.push(FrameMessage::Silence { sample_count, sample_rate, channel_count });
        true
    }
}

/// A core that is held is sent exactly once: a dependent that follows takes it
/// over for the pair's one message, and anything else, or the end, sends it as
/// it is. An independent one and a legacy one are held alike.
pub proof fn held_cores_are_sent_once<S: Copy, G, O>(
    state: StreamState<S, G, O>,
    core: PcmPushResult<S, G, O>,
)
    requires
        state.settled(),
    ensures
        ({
            let held = StreamState {
                pending_independent: Some(PendingIndependent::UnsentCore(core)),
                ..state
            };
            let legacy = StreamState { pending_ac3_core: Some(core), ..state };
            &&& unsent_core(held) == Some(core)
            &&& unsent_core(legacy) == Some(core)
            &&& unit_step(held, UnitClass::Dependent) == UnitStep::<S, G, O>::PairCore(core)
            &&& unit_step(legacy, UnitClass::Dependent) == UnitStep::<S, G, O>::PairCore(core)
        }),
{
}

/// A frame with objects, which was sent when it was decoded, is not sent again:
/// only the core that its objects were rebuilt from is left, for a dependent
/// that follows at once.
pub proof fn sent_frames_are_not_repeated<S: Copy, G, O>(
    state: StreamState<S, G, O>,
    joc_input: CorePcmFrame<S>,
)
    requires
        state.settled(),
    ensures
        ({
            let sent = StreamState {
                pending_independent: Some(PendingIndependent::EmittedObject { joc_input }),
                ..state
            };
            &&& unsent_core(sent) is None
            &&& unit_step(sent, UnitClass::Dependent) == (UnitStep::<S, G, O>::PairObject {
                joc_input,
            })
        }),
{
}

/// A dependent with nothing in front of it belongs to nothing.
pub proof fn orphans_are_skipped<S: Copy, G, O>(state: StreamState<S, G, O>)
    requires
        state.settled(),
    ensures
        unit_step(state, UnitClass::Dependent) is Skip,
        unsent_core(state) is None,
{
}

/// What an access unit's header says of it, for silence in its place.
#[derive(Debug, Clone, Copy, PartialEq, Eq, Structural)]
pub struct UnitHeader {
    pub sample_count: usize,
    pub sample_rate: u32,
    pub channel_count: usize,
}

/// A unit that was decoded into objects, and the undelayed core that they were
/// rebuilt from.
#[derive(Debug)]
pub struct DecodedObjects<S, G, O> {
    pub push: ObjectPcmPushResult<S, G, O>,
    pub joc_input: Option<CorePcmFrame<S>>,
}

/// What became of an access unit.
#[derive(Debug)]
pub struct UnitOutcome {
    /// The stream goes on.
    pub goes_on: bool,
    /// A presentation without JOC went by that the object decoder has not been
    /// told of.
    pub gap: bool,
    /// The error that the unit failed with; all decoders are to start over.
    pub failure: Option<ParseError>,
}

/// The messages that a unit sends before it is decoded: what is held and has no
/// partner.
pub open spec fn sent_first<S, G, O>(state: StreamState<S, G, O>, class: UnitClass) -> Seq<
    FrameMessage<S, G, O>,
> {
    match unsent_core(state) {
        Some(core) => if class is Dependent {
            Seq::empty()
        } else {
            seq![FrameMessage::Core(core)]
        },
        None => Seq::empty(),
    }
}

/// A unit failed: the stream stops, or silence goes out in its place.
pub open spec fn unit_failed<S: Copy, G, O>(
    count: int,
    after: StreamState<S, G, O>,
    strict_mode: bool,
    header: UnitHeader,
    sent: Seq<FrameMessage<S, G, O>>,
    error: ParseError,
    outcome: UnitOutcome,
) -> bool {
    &&& after.settled()
    &&& outcome.failure == Some(error)
    &&& !outcome.gap
    &&& outcome.goes_on == !strict_mode
    &&& if strict_mode {
        after.frame_count == count && sent.len() == 0
    } else {
        &&& after.frame_count == count + 1
        &&& sent =~= seq![
            FrameMessage::<S, G, O>::Silence {
                sample_count: header.sample_count,
                sample_rate: header.sample_rate,
                channel_count: header.channel_count,
            },
        ]
    }
}

/// A unit went through.
pub open spec fn unit_went<S, G, O>(
    count: int,
    after: StreamState<S, G, O>,
    sent: Seq<FrameMessage<S, G, O>>,
    outcome: UnitOutcome,
) -> bool {
    &&& outcome.goes_on
    &&& outcome.failure is None
    &&& after.frame_count == count + sent.len()
}

/// What a unit that asks for `step` leads to, with `count` frames sent before
/// it, where `sent` are the messages that it sends. `gap` says that a
/// presentation without JOC has just gone by.
pub open spec fn unit_completed<S: Copy, G, O, FL, FO, FC, FI, FD>(
    count: int,
    gap: bool,
    after: StreamState<S, G, O>,
    step: UnitStep<S, G, O>,
    strict_mode: bool,
    header: UnitHeader,
    legacy: FL,
    objects: FO,
    core: FC,
    inspect: FI,
    dependent: FD,
    sent: Seq<FrameMessage<S, G, O>>,
    outcome: UnitOutcome,
) -> bool where
    FL: FnOnce() -> Result<PcmPushResult<S, G, O>, ParseError>,
    FO: FnOnce(bool, Option<CorePcmFrame<S>>) -> Result<
        Option<DecodedObjects<S, G, O>>,
        ParseError,
    >,
    FC: FnOnce() -> Result<PcmPushResult<S, G, O>, ParseError>,
    FI: FnOnce() -> Result<AccessUnitInfo<G, O>, ParseError>,
    FD: FnOnce() -> Option<CorePcmFrame<S>>,
 {
    match step {
        UnitStep::DecodeLegacy => exists|decoded: Result<PcmPushResult<S, G, O>, ParseError>|
            {
                &&& #[trigger] legacy.ensures((), decoded)
                &&& match decoded {
                    Ok(found) => {
                        &&& unit_went(count, after, sent, outcome)
                        &&& sent.len() == 0
                        &&& outcome.gap == gap
                        &&& after.pending_ac3_core == Some(found)
                        &&& after.pending_independent is None
                    },
                    Err(error) => unit_failed(
                        count,
                        after,
                        strict_mode,
                        header,
                        sent,
                        error,
                        outcome,
                    ),
                }
            },
        UnitStep::DecodeObjects => exists|
            decoded: Result<Option<DecodedObjects<S, G, O>>, ParseError>,
        |
            {
                &&& #[trigger] objects.ensures((gap, None::<CorePcmFrame<S>>), decoded)
                &&& match decoded {
                    Ok(Some(found)) => {
                        &&& unit_went(count, after, sent, outcome)
                        &&& !outcome.gap
                        &&& sent =~= seq![FrameMessage::Object(found.push)]
                        &&& after.pending_ac3_core is None
                        &&& after.pending_independent == match found.joc_input {
                            Some(input) => Some(
                                PendingIndependent::<S, G, O>::EmittedObject { joc_input: input },
                            ),
                            None => None,
                        }
                    },
                    Ok(None) => exists|plain: Result<PcmPushResult<S, G, O>, ParseError>|
                        {
                            &&& #[trigger] core.ensures((), plain)
                            &&& match plain {
                                Ok(found) => {
                                    &&& unit_went(count, after, sent, outcome)
                                    &&& !outcome.gap
                                    &&& sent.len() == 0
                                    &&& after.pending_ac3_core is None
                                    &&& after.pending_independent == Some(
                                        PendingIndependent::UnsentCore(found),
                                    )
                                },
                                Err(error) => unit_failed(
                                    count,
                                    after,
                                    strict_mode,
                                    header,
                                    sent,
                                    error,
                                    outcome,
                                ),
                            }
                        },
                    Err(error) => unit_failed(
                        count,
                        after,
                        strict_mode,
                        header,
                        sent,
                        error,
                        outcome,
                    ),
                }
            },
        UnitStep::PairCore(held) => exists|info: Result<AccessUnitInfo<G, O>, ParseError>|
            {
                &&& #[trigger] inspect.ensures((), info)
                &&& match info {
                    Err(error) => unit_failed(
                        count,
                        after,
                        strict_mode,
                        header,
                        sent,
                        error,
                        outcome,
                    ),
                    Ok(info) => if joc_count(info.payloads@, 0) > 0 {
                        exists|
                            given: CorePcmFrame<S>,
                            decoded: Result<Option<DecodedObjects<S, G, O>>, ParseError>,
                        |
                            {
                                &&& #[trigger] objects.ensures((false, Some(given)), decoded)
                                &&& given@ == held.pcm@
                                &&& match decoded {
                                    Ok(Some(found)) => {
                                        &&& unit_went(count, after, sent, outcome)
                                        &&& !outcome.gap
                                        &&& after.settled()
                                        &&& sent =~= seq![FrameMessage::Object(found.push)]
                                    },
                                    Ok(None) => bed_sent(
                                        count,
                                        after,
                                        held,
                                        info,
                                        dependent,
                                        sent,
                                        outcome,
                                    ),
                                    Err(error) => unit_failed(
                                        count,
                                        after,
                                        strict_mode,
                                        header,
                                        sent,
                                        error,
                                        outcome,
                                    ),
                                }
                            }
                    } else {
                        bed_sent(count, after, held, info, dependent, sent, outcome)
                    },
                }
            },
        UnitStep::PairObject { joc_input } => exists|
            decoded: Result<Option<DecodedObjects<S, G, O>>, ParseError>,
        |
            {
                &&& #[trigger] objects.ensures((false, Some(joc_input)), decoded)
                &&& match decoded {
                    Ok(found) => {
                        &&& unit_went(count, after, sent, outcome)
                        &&& !outcome.gap
                        &&& after.settled()
                        &&& match found {
                            Some(found) => sent =~= seq![FrameMessage::Object(found.push)],
                            None => sent.len() == 0,
                        }
                    },
                    Err(error) => unit_failed(
                        count,
                        after,
                        strict_mode,
                        header,
                        sent,
                        error,
                        outcome,
                    ),
                }
            },
        UnitStep::Skip => {
            &&& unit_went(count, after, sent, outcome)
            &&& outcome.gap == gap
            &&& after.settled()
            &&& sent.len() == 0
        },
    }
}

/// What an access unit leads to: what it ends goes out first, and it is completed
/// by what it asks for.
pub open spec fn unit_handled<S: Copy, G, O, FL, FO, FC, FI, FD>(
    before: StreamState<S, G, O>,
    after: StreamState<S, G, O>,
    class: UnitClass,
    strict_mode: bool,
    header: UnitHeader,
    legacy: FL,
    objects: FO,
    core: FC,
    inspect: FI,
    dependent: FD,
    out_before: Seq<FrameMessage<S, G, O>>,
    out_after: Seq<FrameMessage<S, G, O>>,
    outcome: UnitOutcome,
) -> bool where
    FL: FnOnce() -> Result<PcmPushResult<S, G, O>, ParseError>,
    FO: FnOnce(bool, Option<CorePcmFrame<S>>) -> Result<
        Option<DecodedObjects<S, G, O>>,
        ParseError,
    >,
    FC: FnOnce() -> Result<PcmPushResult<S, G, O>, ParseError>,
    FI: FnOnce() -> Result<AccessUnitInfo<G, O>, ParseError>,
    FD: FnOnce() -> Option<CorePcmFrame<S>>,
 {
    let first = sent_first(before, class);
    let sent = out_after.skip((out_before.len() + first.len()) as int);
    &&& out_after =~= out_before + first + sent
    &&& unit_completed(
        before.frame_count + first.len(),
        first.len() > 0,
        after,
        unit_step(before, class),
        strict_mode,
        header,
        legacy,
        objects,
        core,
        inspect,
        dependent,
        sent,
        outcome,
    )
}

/// A pair without objects has sent its bed, and is a presentation without JOC.
pub open spec fn bed_sent<S: Copy, G, O, FD>(
    count: int,
    after: StreamState<S, G, O>,
    held: PcmPushResult<S, G, O>,
    info: AccessUnitInfo<G, O>,
    dependent: FD,
    sent: Seq<FrameMessage<S, G, O>>,
    outcome: UnitOutcome,
) -> bool where FD: FnOnce() -> Option<CorePcmFrame<S>> {
    &&& unit_went(count, after, sent, outcome)
    &&& outcome.gap
    &&& after.settled()
    &&& sent.len() == 1
    &&& exists|channels: Option<CorePcmFrame<S>>|
        {
            &&& #[trigger] dependent.ensures((), channels)
            &&& sent[0] matches FrameMessage::Core(push)
            &&& push.frames_seen == count + 1
            &&& push.info == info
            &&& push.pcm@ == pair_bed(
                held.pcm@,
                match channels {
                    Some(found) => Some(found@),
                    None => None,
                },
                info.dependent_channel_map,
            )
        }
}

impl<S: Copy, G, O> StreamState<S, G, O> {
    /// Takes one access unit through: sends what it ends, has it decoded, and
    /// sends or holds what comes of it.
    ///
    /// `legacy` decodes it as a legacy core, `objects` its objects from the
    /// given core or else from its own, once told of a presentation without
    /// JOC, `core` its core, and `dependent` its channels as a dependent;
    /// `inspect` reads its syntax.
    pub fn handle_frame<FL, FO, FC, FI, FD>(
        &mut self,
        class: UnitClass,
        header: UnitHeader,
        strict_mode: bool,
        legacy: FL,
        objects: FO,
        core: FC,
        inspect: FI,
        dependent: FD,
        out: &mut Vec<FrameMessage<S, G, O>>,
    ) -> (outcome: UnitOutcome) where
        FL: FnOnce() -> Result<PcmPushResult<S, G, O>, ParseError>,
        FO: FnOnce(bool, Option<CorePcmFrame<S>>) -> Result<
            Option<DecodedObjects<S, G, O>>,
            ParseError,
        >,
        FC: FnOnce() -> Result<PcmPushResult<S, G, O>, ParseError>,
        FI: FnOnce() -> Result<AccessUnitInfo<G, O>, ParseError>,
        FD: FnOnce() -> Option<CorePcmFrame<S>>,

        requires
            old(self).wf(),
            old(self).frame_count < u64::MAX - 1,
            legacy.requires(()),
            forall|gap: bool, given: Option<CorePcmFrame<S>>| #[trigger]
                objects.requires((gap, given)),
            core.requires(()),
            inspect.requires(()),
            dependent.requires(()),
            unsent_core(*old(self)) matches Some(held) ==> held.pcm.fullband_channel_order@.len()
                <= held.pcm.fullband_channels@.len(),
        ensures
            final(self).wf(),
            unit_handled(
                *old(self),
                *final(self),
                class,
                strict_mode,
                header,
                legacy,
                objects,
                core,
                inspect,
                dependent,
                old(out)@,
                final(out)@,
                outcome,
            ),
    {
        let ghost first = sent_first(*self, class);
        let (step, gap) = self.begin_unit(class, out);
        let ghost begun = out@;
        let ghost count = self.frame_count as int;
        assert(begun =~= old(out)@ + first);
        let mut failure: Option<ParseError> = None;
        let mut untold: bool = false;
        match step {
            UnitStep::DecodeLegacy => {
                untold = gap;
                match legacy() {
                    Ok(found) => {
                        self.legacy_decoded(found);
                    },
                    Err(error) => {
                        failure = Some(error);
                    },
                }
            },
            UnitStep::DecodeObjects => match objects(gap, None) {
                Ok(Some(found)) => {
                    self.objects_decoded(found.push, found.joc_input, out);
                },
                Ok(None) => match core() {
                    Ok(found) => {
                        self.core_decoded(found);
                    },
                    Err(error) => {
                        failure = Some(error);
                    },
                },
                Err(error) => {
                    failure = Some(error);
                },
            },
            UnitStep::PairCore(held) => match inspect() {
                Ok(info) => {
                    let mut rebuilt: Result<Option<DecodedObjects<S, G, O>>, ParseError> = Ok(
                        None,
                    );
                    if Self::pair_has_objects(&info) {
                        let given: CorePcmFrame<S> = copied_core(&held.pcm);
                        rebuilt = objects(false, Some(given));
                        assert(objects.ensures((false, Some(given)), rebuilt));
                    }
                    match rebuilt {
                        Ok(Some(found)) => {
                            self.pair_objects_decoded(found.push, out);
                        },
                        Ok(None) => {
                            untold = true;
                            let channels: Option<CorePcmFrame<S>> = dependent();
                            assert(dependent.ensures((), channels));
                            self.handle_core_pair(held, info, channels, out);
                        },
                        Err(error) => {
                            failure = Some(error);
                        },
                    }
                },
                Err(error) => {
                    failure = Some(error);
                },
            },
            UnitStep::PairObject { joc_input } => match objects(false, Some(joc_input)) {
                Ok(Some(found)) => {
                    self.pair_objects_decoded(found.push, out);
                },
                Ok(None) => {},
                Err(error) => {
                    failure = Some(error);
                },
            },
            UnitStep::Skip => {
                untold = gap;
            },
        }
        if let Some(error) = failure {
            let goes_on: bool = self.surface_decode_err(
                strict_mode,
                header.sample_count,
                header.sample_rate,
                header.channel_count,
                out,
            );
            assert(out@ =~= begun + out@.skip(begun.len() as int));
            return UnitOutcome { goes_on, gap: false, failure: Some(error) };
        }
        assert(out@ =~= begun + out@.skip(begun.len() as int));
        UnitOutcome { goes_on: true, gap: untold, failure: None }
    }
}

/// A pair sends exactly one message: its objects, its bed, or silence in place
/// of what failed. Only where a strict stream stops at a failure is there none.
pub proof fn pairs_send_one_message<S: Copy, G, O, FL, FO, FC, FI, FD>(
    count: int,
    gap: bool,
    after: StreamState<S, G, O>,
    held: PcmPushResult<S, G, O>,
    strict_mode: bool,
    header: UnitHeader,
    legacy: FL,
    objects: FO,
    core: FC,
    inspect: FI,
    dependent: FD,
    sent: Seq<FrameMessage<S, G, O>>,
    outcome: UnitOutcome,
) where
    FL: FnOnce() -> Result<PcmPushResult<S, G, O>, ParseError>,
    FO: FnOnce(bool, Option<CorePcmFrame<S>>) -> Result<
        Option<DecodedObjects<S, G, O>>,
        ParseError,
    >,
    FC: FnOnce() -> Result<PcmPushResult<S, G, O>, ParseError>,
    FI: FnOnce() -> Result<AccessUnitInfo<G, O>, ParseError>,
    FD: FnOnce() -> Option<CorePcmFrame<S>>,

    requires
        unit_completed(
            count,
            gap,
            after,
            UnitStep::PairCore(held),
            strict_mode,
            header,
            legacy,
            objects,
            core,
            inspect,
            dependent,
            sent,
            outcome,
        ),
    ensures
        sent.len() == if outcome.goes_on {
            1int
        } else {
            0int
        },
        outcome.goes_on == (outcome.failure is None || !strict_mode),
        after.settled(),
        after.frame_count == count + sent.len(),
{
}

} // verus!
