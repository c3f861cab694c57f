//! E-AC-3 access units, from the unit to the frame.
//!
//! An independent unit starts a presentation and the dependents behind it join
//! it. The decoders are handed in: each is called where the bridge's state asks
//! for it, and what it gives decides what happens next.

use crate::bridge::bridge::{
    decode_for, frame_emitted, group_failure_counted, independent_held, legacy_failure_counted,
    legacy_held, presentation_taken, restarted, unit_begun, AtmosBridge, DecoderSettings,
    Eac3Decode, Eac3Step, Eac3UnitKind, PendingEac3Core, PushResult, Resolution,
};
use crate::bridge::frame::DecodedFrame;
use vstd::prelude::*;
use vstd::string::StringExecFns;

verus! {

/// Another access unit can be counted, whatever becomes of it.
pub open spec fn counts_fit<C, P, M>(bridge: AtmosBridge<C, P, M>) -> bool {
    &&& bridge.eac3_frame_count < u64::MAX
    &&& bridge.eac3_diag_stats.ac3_core_decoded < u64::MAX
    &&& bridge.eac3_diag_stats.ac3_core_decode_failures < u64::MAX
    &&& bridge.eac3_diag_stats.dependent_pair_attempts < u64::MAX
    &&& bridge.eac3_diag_stats.dependent_pair_failures < u64::MAX
    &&& bridge.eac3_diag_stats.dependent_frames_dropped < u64::MAX
}

/// The number of presentations in hand: one or none.
pub open spec fn in_hand<C, P, M>(bridge: AtmosBridge<C, P, M>) -> int {
    if bridge.pending_eac3_core is Some {
        1
    } else {
        0
    }
}

/// A frame was added to a result, and nothing else.
pub open spec fn frame_added(
    before: PushResult,
    after: PushResult,
    frame: DecodedFrame,
) -> bool {
    &&& after.frames@ == before.frames@.push(frame)
    &&& after.error_message == before.error_message
    &&& after.did_reset == before.did_reset
}

/// What resolving a presentation that was taken out comes to. A core that
/// stands on its own gives the frame that `standalone` builds. A group gives the
/// frame that `group` resolves it to, or starts the pipeline over where it
/// cannot be resolved.
pub open spec fn resolution_played<
    C,
    P,
    M,
    FS: FnOnce(PendingEac3Core<C, P>) -> DecodedFrame,
    FG: FnOnce(PendingEac3Core<C, P>, Vec<Vec<u8>>, bool) -> Result<DecodedFrame, String>,
>(
    before: AtmosBridge<C, P, M>,
    after: AtmosBridge<C, P, M>,
    resolution: Resolution<C, P>,
    standalone: FS,
    group: FG,
    result_before: PushResult,
    result_after: PushResult,
    stopped: Option<DecoderSettings>,
) -> bool {
    match resolution {
        Resolution::Empty => {
            &&& after == before
            &&& result_after == result_before
            &&& stopped is None
        },
        Resolution::Standalone(core) => exists|frame: DecodedFrame| {
            &&& #[trigger] standalone.ensures((core,), frame)
            &&& frame_added(result_before, result_after, frame)
            &&& after == before
            &&& stopped is None
        },
        Resolution::Group { core, dependents, joc } => exists|
            outcome: Result<DecodedFrame, String>,
        | {
            &&& #[trigger] group.ensures((core, dependents, joc), outcome)
            &&& match outcome {
                Ok(frame) => {
                    &&& frame_added(result_before, result_after, frame)
                    &&& after == before
                    &&& stopped is None
                },
                Err(message) => {
                    &&& stopped matches Some(settings)
                    &&& restarted(
                        group_failure_counted(before, message),
                        after,
                        message@,
                        result_before,
                        result_after,
                        settings,
                    )
                },
            }
        },
    }
}

/// The presentation in hand, if any, was resolved.
pub open spec fn presentation_finished<
    C,
    P,
    M,
    FS: FnOnce(PendingEac3Core<C, P>) -> DecodedFrame,
    FG: FnOnce(PendingEac3Core<C, P>, Vec<Vec<u8>>, bool) -> Result<DecodedFrame, String>,
>(
    before: AtmosBridge<C, P, M>,
    after: AtmosBridge<C, P, M>,
    standalone: FS,
    group: FG,
    result_before: PushResult,
    result_after: PushResult,
    stopped: Option<DecoderSettings>,
) -> bool {
    exists|taken: AtmosBridge<C, P, M>, resolution: Resolution<C, P>|
        {
            &&& #[trigger] presentation_taken(before, taken, resolution)
            &&& resolution_played(
                taken,
                after,
                resolution,
                standalone,
                group,
                result_before,
                result_after,
                stopped,
            )
        }
}

/// What decoding a unit as an E-AC-3 frame comes to. A plain independent core
/// is held until the next unit. Any other frame is complete and goes out as
/// `judge` finds it: whether it is valid, and whether it stands in for missing
/// audio. A unit that cannot be decoded starts the pipeline over.
pub open spec fn frame_decoded<
    C,
    P,
    M,
    FC: FnOnce(&[u8]) -> Result<P, String>,
    FW: FnOnce(&[u8]) -> Result<DecodedFrame, String>,
    FJ: FnOnce(&DecodedFrame) -> (bool, bool),
>(
    before: AtmosBridge<C, P, M>,
    after: AtmosBridge<C, P, M>,
    unit: &[u8],
    kind: Eac3UnitKind,
    core: FC,
    whole: FW,
    judge: FJ,
    silence: (bool, bool),
    results: (PushResult, PushResult),
    stopped: Option<DecoderSettings>,
) -> bool {
    if decode_for(kind, true) is Core {
        exists|outcome: Result<P, String>|
            {
                &&& #[trigger] core.ensures((unit,), outcome)
                &&& silence.1 == silence.0
                &&& match outcome {
                    Ok(push) => {
                        &&& independent_held(before, after, push)
                        &&& results.1 == results.0
                        &&& stopped is None
                    },
                    Err(error) => {
                        &&& stopped matches Some(settings)
                        &&& restarted(
                            before,
                            after,
                            "E-AC3 core decode error: "@ + error@,
                            results.0,
                            results.1,
                            settings,
                        )
                    },
                }
            }
    } else {
        exists|outcome: Result<DecodedFrame, String>|
            {
                &&& #[trigger] whole.ensures((unit,), outcome)
                &&& match outcome {
                    Ok(frame) => exists|verdict: (bool, bool)|
                        {
                            &&& #[trigger] judge.ensures((&frame,), verdict)
                            &&& frame_emitted(
                                frame,
                                verdict.0,
                                verdict.1,
                                silence.0,
                                silence.1,
                                results.0,
                                results.1,
                            )
                            &&& after == before
                            &&& stopped is None
                        },
                    Err(message) => {
                        &&& stopped matches Some(settings)
                        &&& restarted(before, after, message@, results.0, results.1, settings)
                        &&& silence.1 == silence.0
                    },
                }
            }
    }
}

/// What decoding a unit that is no dependent comes to. A legacy core is held
/// for its dependents; one that cannot be decoded is counted and tried again as
/// an E-AC-3 frame.
pub open spec fn unit_decoded<
    C,
    P,
    M,
    FL: FnOnce(&[u8]) -> Result<C, String>,
    FC: FnOnce(&[u8]) -> Result<P, String>,
    FW: FnOnce(&[u8]) -> Result<DecodedFrame, String>,
    FJ: FnOnce(&DecodedFrame) -> (bool, bool),
>(
    before: AtmosBridge<C, P, M>,
    after: AtmosBridge<C, P, M>,
    unit: &[u8],
    kind: Eac3UnitKind,
    legacy: FL,
    core: FC,
    whole: FW,
    judge: FJ,
    silence: (bool, bool),
    results: (PushResult, PushResult),
    stopped: Option<DecoderSettings>,
) -> bool {
    if decode_for(kind, false) is Legacy {
        exists|outcome: Result<C, String>|
            {
                &&& #[trigger] legacy.ensures((unit,), outcome)
                &&& match outcome {
                    Ok(held) => {
                        &&& legacy_held(before, after, held, unit@)
                        &&& silence.1 == silence.0
                        &&& results.1 == results.0
                        &&& stopped is None
                    },
                    Err(error) => frame_decoded(
                        legacy_failure_counted(before, error),
                        after,
                        unit,
                        kind,
                        core,
                        whole,
                        judge,
                        silence,
                        results,
                        stopped,
                    ),
                }
            }
    } else {
        frame_decoded(
            before,
            after,
            unit,
            kind,
            core,
            whole,
            judge,
            silence,
            results,
            stopped,
        )
    }
}

/// The presentation in hand was resolved, which left the bridge as `resolved`,
/// the packet's result as `between` and the pipeline going on or not, as
/// `halted` says. Where it goes on, the unit was decoded.
pub open spec fn resolved_and_decoded<
    C,
    P,
    M,
    FS: FnOnce(PendingEac3Core<C, P>) -> DecodedFrame,
    FG: FnOnce(PendingEac3Core<C, P>, Vec<Vec<u8>>, bool) -> Result<DecodedFrame, String>,
    FL: FnOnce(&[u8]) -> Result<C, String>,
    FC: FnOnce(&[u8]) -> Result<P, String>,
    FW: FnOnce(&[u8]) -> Result<DecodedFrame, String>,
    FJ: FnOnce(&DecodedFrame) -> (bool, bool),
>(
    before: AtmosBridge<C, P, M>,
    resolved: AtmosBridge<C, P, M>,
    between: PushResult,
    halted: Option<DecoderSettings>,
    after: AtmosBridge<C, P, M>,
    unit: &[u8],
    kind: Eac3UnitKind,
    resolvers: (FS, FG),
    decoders: (FL, FC, FW, FJ),
    silence: (bool, bool),
    results: (PushResult, PushResult),
    stopped: Option<DecoderSettings>,
) -> bool {
    &&& presentation_finished(
        before,
        resolved,
        resolvers.0,
        resolvers.1,
        results.0,
        between,
        halted,
    )
    &&& if halted is Some {
        &&& after == resolved
        &&& silence.1 == silence.0
        &&& results.1 == between
        &&& stopped == halted
    } else {
        unit_decoded(
            resolved,
            after,
            unit,
            kind,
            decoders.0,
            decoders.1,
            decoders.2,
            decoders.3,
            silence,
            (between, results.1),
            stopped,
        )
    }
}

/// What an access unit comes to once it is counted and, where it is a
/// dependent, attached or dropped.
pub open spec fn step_taken<
    C,
    P,
    M,
    FS: FnOnce(PendingEac3Core<C, P>) -> DecodedFrame,
    FG: FnOnce(PendingEac3Core<C, P>, Vec<Vec<u8>>, bool) -> Result<DecodedFrame, String>,
    FL: FnOnce(&[u8]) -> Result<C, String>,
    FC: FnOnce(&[u8]) -> Result<P, String>,
    FW: FnOnce(&[u8]) -> Result<DecodedFrame, String>,
    FJ: FnOnce(&DecodedFrame) -> (bool, bool),
>(
    before: AtmosBridge<C, P, M>,
    after: AtmosBridge<C, P, M>,
    unit: &[u8],
    kind: Eac3UnitKind,
    step: Eac3Step,
    resolvers: (FS, FG),
    decoders: (FL, FC, FW, FJ),
    silence: (bool, bool),
    results: (PushResult, PushResult),
    stopped: Option<DecoderSettings>,
) -> bool {
    match step {
        Eac3Step::Nothing => {
            &&& after == before
            &&& silence.1 == silence.0
            &&& results.1 == results.0
            &&& stopped is None
        },
        Eac3Step::Resolve => {
            &&& presentation_finished(
                before,
                after,
                resolvers.0,
                resolvers.1,
                results.0,
                results.1,
                stopped,
            )
            &&& silence.1 == silence.0
        },
        Eac3Step::ResolveAndDecode => exists|
            resolved: AtmosBridge<C, P, M>,
            between: PushResult,
            halted: Option<DecoderSettings>,
        | #[trigger]
            resolved_and_decoded(
                before,
                resolved,
                between,
                halted,
                after,
                unit,
                kind,
                resolvers,
                decoders,
                silence,
                results,
                stopped,
            ),
    }
}

/// What an access unit comes to. `resolvers` build the frame of a core that
/// stands on its own and resolve a group. `decoders` decode a legacy core, an
/// independent core and a complete frame, and judge a frame. `silence` says
/// before and after the unit whether a frame that stands in for missing audio
/// went out, and `results` is the packet's result before and after it.
pub open spec fn unit_processed<
    C,
    P,
    M,
    FS: FnOnce(PendingEac3Core<C, P>) -> DecodedFrame,
    FG: FnOnce(PendingEac3Core<C, P>, Vec<Vec<u8>>, bool) -> Result<DecodedFrame, String>,
    FL: FnOnce(&[u8]) -> Result<C, String>,
    FC: FnOnce(&[u8]) -> Result<P, String>,
    FW: FnOnce(&[u8]) -> Result<DecodedFrame, String>,
    FJ: FnOnce(&DecodedFrame) -> (bool, bool),
>(
    before: AtmosBridge<C, P, M>,
    after: AtmosBridge<C, P, M>,
    unit: &[u8],
    kind: Eac3UnitKind,
    resolvers: (FS, FG),
    decoders: (FL, FC, FW, FJ),
    silence: (bool, bool),
    results: (PushResult, PushResult),
    stopped: Option<DecoderSettings>,
) -> bool {
    exists|begun: AtmosBridge<C, P, M>, step: Eac3Step|
        {
            &&& #[trigger] unit_begun(before, begun, unit@, kind, step)
            &&& step_taken(
                begun,
                after,
                unit,
                kind,
                step,
                resolvers,
                decoders,
                silence,
                results,
                stopped,
            )
        }
}

impl<C, P, M> AtmosBridge<C, P, M> {
    /// Resolves the presentation in hand, if there is one. `Some` means that
    /// the pipeline was started over and the decoders are to be set anew.
    ///
    /// `standalone` builds the frame of a core without dependents. `group` is
    /// given the core, the dependents in order and whether the last of them
    /// carries a JOC payload. Both tell the object decoder when a presentation
    /// goes by without JOC.
    pub fn finish_presentation<FS, FG>(
        &mut self,
        standalone: FS,
        group: FG,
        result: &mut PushResult,
    ) -> (stopped: Option<DecoderSettings>) where
        FS: FnOnce(PendingEac3Core<C, P>) -> DecodedFrame,
        FG: FnOnce(PendingEac3Core<C, P>, Vec<Vec<u8>>, bool) -> Result<DecodedFrame, String>,

        requires
            old(self).wf(),
            old(self).eac3_diag_stats.dependent_pair_attempts < u64::MAX,
            old(self).eac3_diag_stats.dependent_pair_failures < u64::MAX,
            forall|core: PendingEac3Core<C, P>| #[trigger] standalone.requires((core,)),
            forall|core: PendingEac3Core<C, P>, dependents: Vec<Vec<u8>>, joc: bool| #[trigger]
                group.requires((core, dependents, joc)),
        ensures
            final(self).wf(),
            presentation_finished(
                *old(self),
                *final(self),
                standalone,
                group,
                *old(result),
                *final(result),
                stopped,
            ),
    {
        match self.resolve_pending_presentation() {
            Resolution::Empty => None,
            Resolution::Standalone(core) => {
                let frame: DecodedFrame = standalone(core);
                result.frames.push(frame);
                None
            },
            Resolution::Group { core, dependents, joc } => {
                match group(core, dependents, joc) {
                    Ok(frame) => {
                        result.frames.push(frame);
                        None
                    },
                    Err(message) => Some(self.finish_failed(message, result)),
                }
            },
        }
    }

    /// Decodes a unit as an E-AC-3 frame.
    fn decode_frame<FC, FW, FJ>(
        &mut self,
        unit: &[u8],
        kind: Eac3UnitKind,
        core: FC,
        whole: FW,
        judge: FJ,
        silence_pushed: &mut bool,
        result: &mut PushResult,
    ) -> (stopped: Option<DecoderSettings>) where
        FC: FnOnce(&[u8]) -> Result<P, String>,
        FW: FnOnce(&[u8]) -> Result<DecodedFrame, String>,
        FJ: FnOnce(&DecodedFrame) -> (bool, bool),

        requires
            old(self).wf(),
            core.requires((unit,)),
            whole.requires((unit,)),
            forall|frame: &DecodedFrame| #[trigger] judge.requires((frame,)),
        ensures
            final(self).wf(),
            frame_decoded(
                *old(self),
                *final(self),
                unit,
                kind,
                core,
                whole,
                judge,
                (*old(silence_pushed), *final(silence_pushed)),
                (*old(result), *final(result)),
                stopped,
            ),
    {
        match self.decode_plan(kind, true) {
            Eac3Decode::Core => match core(unit) {
                Ok(push) => {
                    self.independent_core_decoded(push);
                    None
                },
                Err(error) => {
                    let mut message: String = "E-AC3 core decode error: ".to_owned();
                    message.append(error.as_str());
                    Some(self.eac3_failed(message, result))
                },
            },
            _ => match whole(unit) {
                Ok(frame) => {
                    let (valid, temporary_silence): (bool, bool) = judge(&frame);
                    Self::emit_eac3_frame(
                        frame,
                        valid,
                        temporary_silence,
                        silence_pushed,
                        result,
                    );
                    None
                },
                Err(message) => Some(self.eac3_failed(message, result)),
            },
        }
    }

    /// Decodes a unit that is no dependent.
    fn decode_unit<FL, FC, FW, FJ>(
        &mut self,
        unit: &[u8],
        kind: Eac3UnitKind,
        legacy: FL,
        core: FC,
        whole: FW,
        judge: FJ,
        silence_pushed: &mut bool,
        result: &mut PushResult,
    ) -> (stopped: Option<DecoderSettings>) where
        FL: FnOnce(&[u8]) -> Result<C, String>,
        FC: FnOnce(&[u8]) -> Result<P, String>,
        FW: FnOnce(&[u8]) -> Result<DecodedFrame, String>,
        FJ: FnOnce(&DecodedFrame) -> (bool, bool),

        requires
            old(self).wf(),
            old(self).eac3_diag_stats.ac3_core_decoded < u64::MAX,
            old(self).eac3_diag_stats.ac3_core_decode_failures < u64::MAX,
            legacy.requires((unit,)),
            core.requires((unit,)),
            whole.requires((unit,)),
            forall|frame: &DecodedFrame| #[trigger] judge.requires((frame,)),
        ensures
            final(self).wf(),
            unit_decoded(
                *old(self),
                *final(self),
                unit,
                kind,
                legacy,
                core,
                whole,
                judge,
                (*old(silence_pushed), *final(silence_pushed)),
                (*old(result), *final(result)),
                stopped,
            ),
    {
        if let Eac3Decode::Legacy = self.decode_plan(kind, false) {
            match legacy(unit) {
                Ok(held) => {
                    self.legacy_core_decoded(held, unit);
                    return None;
                },
                Err(error) => {
                    self.legacy_core_failed(error);
                },
            }
        }
        self.decode_frame(unit, kind, core, whole, judge, silence_pushed, result)
    }

    /// Processes one access unit. `Some` means that the pipeline was started
    /// over: `result` says why, the decoders are to be set anew, and nothing
    /// more of the packet is to be processed.
    ///
    /// `standalone` and `group` resolve a presentation. `legacy`, `core` and
    /// `whole` decode the unit as a legacy core, as an independent core and as a
    /// complete presentation. `judge` says of a decoded frame whether it is
    /// valid and whether it stands in for missing audio.
    pub fn process_eac3_access_unit<FS, FG, FL, FC, FW, FJ>(
        &mut self,
        unit: &[u8],
        kind: Eac3UnitKind,
        resolvers: (FS, FG),
        decoders: (FL, FC, FW, FJ),
        silence_pushed: &mut bool,
        result: &mut PushResult,
    ) -> (stopped: Option<DecoderSettings>) where
        FS: FnOnce(PendingEac3Core<C, P>) -> DecodedFrame,
        FG: FnOnce(PendingEac3Core<C, P>, Vec<Vec<u8>>, bool) -> Result<DecodedFrame, String>,
        FL: FnOnce(&[u8]) -> Result<C, String>,
        FC: FnOnce(&[u8]) -> Result<P, String>,
        FW: FnOnce(&[u8]) -> Result<DecodedFrame, String>,
        FJ: FnOnce(&DecodedFrame) -> (bool, bool),

        requires
            old(self).wf(),
            counts_fit(*old(self)),
            forall|core: PendingEac3Core<C, P>| #[trigger] resolvers.0.requires((core,)),
            forall|core: PendingEac3Core<C, P>, dependents: Vec<Vec<u8>>, joc: bool| #[trigger]
                resolvers.1.requires((core, dependents, joc)),
            decoders.0.requires((unit,)),
            decoders.1.requires((unit,)),
            decoders.2.requires((unit,)),
            forall|frame: &DecodedFrame| #[trigger] decoders.3.requires((frame,)),
        ensures
            final(self).wf(),
            unit_processed(
                *old(self),
                *final(self),
                unit,
                kind,
                resolvers,
                decoders,
                (*old(silence_pushed), *final(silence_pushed)),
                (*old(result), *final(result)),
                stopped,
            ),
    {
        let (standalone, group) = resolvers;
        let (legacy, core, whole, judge) = decoders;
        let ghost silence = *silence_pushed;
        let ghost received = *result;
        let step: Eac3Step = self.begin_access_unit(unit, kind);
        let ghost begun = *self;
        let stopped: Option<DecoderSettings> = match step {
            Eac3Step::Nothing => None,
            Eac3Step::Resolve => self.finish_presentation(standalone, group, result),
            Eac3Step::ResolveAndDecode => {
                let halted: Option<DecoderSettings> = self.finish_presentation(
                    standalone,
                    group,
                    result,
                );
                let ghost resolved = *self;
                let ghost between = *result;
                let stopped: Option<DecoderSettings> = if halted.is_some() {
                    halted
                } else {
                    self.decode_unit(
                        unit,
                        kind,
                        legacy,
                        core,
                        whole,
                        judge,
                        silence_pushed,
                        result,
                    )
                };
                assert(resolved_and_decoded(
                    begun,
                    resolved,
                    between,
                    halted,
                    *self,
                    unit,
                    kind,
                    resolvers,
                    decoders,
                    (silence, *silence_pushed),
                    (received, *result),
                    stopped,
                ));
                stopped
            },
        };
        proof {
            assert(unit_begun(*old(self), begun, unit@, kind, step));
            assert(step_taken(
                begun,
                *self,
                unit,
                kind,
                step,
                resolvers,
                decoders,
                (silence, *silence_pushed),
                (received, *result),
                stopped,
            ));
        }
        stopped
    }
}

/// Every presentation gives exactly one frame: where the presentation in hand
/// is resolved, one frame is added behind those that are there and nothing
/// stays in hand. Where a group cannot be resolved no frame comes of it and the
/// pipeline starts over.
pub proof fn presentations_give_one_frame<
    C,
    P,
    M,
    FS: FnOnce(PendingEac3Core<C, P>) -> DecodedFrame,
    FG: FnOnce(PendingEac3Core<C, P>, Vec<Vec<u8>>, bool) -> Result<DecodedFrame, String>,
>(
    before: AtmosBridge<C, P, M>,
    after: AtmosBridge<C, P, M>,
    standalone: FS,
    group: FG,
    result_before: PushResult,
    result_after: PushResult,
    stopped: Option<DecoderSettings>,
)
    requires
        presentation_finished(
            before,
            after,
            standalone,
            group,
            result_before,
            result_after,
            stopped,
        ),
    ensures
        after.pending_eac3_core is None,
        result_before.frames@ =~= result_after.frames@.take(result_before.frames@.len() as int),
        result_after.frames@.len() == result_before.frames@.len() + if stopped is None {
            in_hand(before)
        } else {
            0
        },
        stopped is Some ==> after.session_is_fresh() && result_after.did_reset,
        before.pending_eac3_core is None ==> stopped is None,
{
}

/// Presentations are neither lost nor doubled. A dependent starts none: what it
/// ends goes out as a frame. Any other unit starts one, which stays in hand or
/// goes out at once; it is missing only where `judge` finds its frame invalid or
/// one of several that stand in for missing audio.
pub proof fn units_keep_the_balance<
    C,
    P,
    M,
    FS: FnOnce(PendingEac3Core<C, P>) -> DecodedFrame,
    FG: FnOnce(PendingEac3Core<C, P>, Vec<Vec<u8>>, bool) -> Result<DecodedFrame, String>,
    FL: FnOnce(&[u8]) -> Result<C, String>,
    FC: FnOnce(&[u8]) -> Result<P, String>,
    FW: FnOnce(&[u8]) -> Result<DecodedFrame, String>,
    FJ: FnOnce(&DecodedFrame) -> (bool, bool),
>(
    before: AtmosBridge<C, P, M>,
    after: AtmosBridge<C, P, M>,
    unit: &[u8],
    kind: Eac3UnitKind,
    resolvers: (FS, FG),
    decoders: (FL, FC, FW, FJ),
    silence: (bool, bool),
    results: (PushResult, PushResult),
    stopped: Option<DecoderSettings>,
)
    requires
        unit_processed(
            before,
            after,
            unit,
            kind,
            resolvers,
            decoders,
            silence,
            results,
            stopped,
        ),
        stopped is None,
    ensures
        kind.dependent ==> results.1.frames@.len() + in_hand(after) == results.0.frames@.len()
            + in_hand(before),
        !kind.dependent ==> {
            let sum = results.1.frames@.len() + in_hand(after);
            let floor = results.0.frames@.len() + in_hand(before);
            &&& floor <= sum <= floor + 1
            &&& (forall|frame: &DecodedFrame, verdict: (bool, bool)| #[trigger]
                decoders.3.ensures((frame,), verdict) ==> verdict.0 && !(verdict.1 && silence.0))
                ==> sum == floor + 1
        },
{
    let (begun, step) = choose|begun: AtmosBridge<C, P, M>, step: Eac3Step|
        {
            &&& #[trigger] unit_begun(before, begun, unit@, kind, step)
            &&& step_taken(
                begun,
                after,
                unit,
                kind,
                step,
                resolvers,
                decoders,
                silence,
                results,
                stopped,
            )
        };
    match step {
        Eac3Step::Nothing => {},
        Eac3Step::Resolve => {
            presentations_give_one_frame(
                begun,
                after,
                resolvers.0,
                resolvers.1,
                results.0,
                results.1,
                stopped,
            );
        },
        Eac3Step::ResolveAndDecode => {
            let (resolved, between, halted) = choose|
                resolved: AtmosBridge<C, P, M>,
                between: PushResult,
                halted: Option<DecoderSettings>,
            | #[trigger]
                resolved_and_decoded(
                    begun,
                    resolved,
                    between,
                    halted,
                    after,
                    unit,
                    kind,
                    resolvers,
                    decoders,
                    silence,
                    results,
                    stopped,
                );
            presentations_give_one_frame(
                begun,
                resolved,
                resolvers.0,
                resolvers.1,
                results.0,
                between,
                halted,
            );
        },
    }
}

/// The one frame of a presentation is built from its core where it stands alone,
/// and else is what its core and all its dependents resolve to, where the last of
/// them says whether there are objects. Where they do not resolve, the reason is
/// told and counted.
pub proof fn presentations_are_resolved_from_what_was_held<
    C,
    P,
    M,
    FS: FnOnce(PendingEac3Core<C, P>) -> DecodedFrame,
    FG: FnOnce(PendingEac3Core<C, P>, Vec<Vec<u8>>, bool) -> Result<DecodedFrame, String>,
>(
    before: AtmosBridge<C, P, M>,
    after: AtmosBridge<C, P, M>,
    standalone: FS,
    group: FG,
    result_before: PushResult,
    result_after: PushResult,
    stopped: Option<DecoderSettings>,
)
    requires
        presentation_finished(
            before,
            after,
            standalone,
            group,
            result_before,
            result_after,
            stopped,
        ),
        before.pending_eac3_core is Some,
        before.eac3_diag_stats.dependent_pair_failures < u64::MAX,
    ensures
        ({
            let held = before.pending_eac3_core->0;
            if held.dependents@.len() == 0 {
                &&& stopped is None
                &&& standalone.ensures((held.core,), result_after.frames@.last())
            } else if stopped is None {
                group.ensures(
                    (held.core, held.dependents, held.last_carries_joc),
                    Ok(result_after.frames@.last()),
                )
            } else {
                exists|message: String|
                    {
                        &&& #[trigger] group.ensures(
                            (held.core, held.dependents, held.last_carries_joc),
                            Err(message),
                        )
                        &&& result_after.error_message@ == message@
                        &&& after.eac3_diag_stats.dependent_pair_failures
                            == before.eac3_diag_stats.dependent_pair_failures + 1
                        &&& after.eac3_diag_stats.last_dependent_pair_error == Some(message)
                    }
            }
        }),
{
    let held = before.pending_eac3_core->0;
    let (taken, resolution) = choose|taken: AtmosBridge<C, P, M>, resolution: Resolution<C, P>|
        {
            &&& #[trigger] presentation_taken(before, taken, resolution)
            &&& resolution_played(
                taken,
                after,
                resolution,
                standalone,
                group,
                result_before,
                result_after,
                stopped,
            )
        };
    if held.dependents@.len() == 0 {
        let frame = choose|frame: DecodedFrame|
            {
                &&& #[trigger] standalone.ensures((held.core,), frame)
                &&& frame_added(result_before, result_after, frame)
            };
        assert(result_after.frames@.last() == frame);
    } else {
        let outcome = choose|outcome: Result<DecodedFrame, String>|
            {
                &&& #[trigger] group.ensures(
                    (held.core, held.dependents, held.last_carries_joc),
                    outcome,
                )
                &&& match outcome {
                    Ok(frame) => {
                        &&& frame_added(result_before, result_after, frame)
                        &&& stopped is None
                    },
                    Err(message) => {
                        &&& stopped matches Some(settings)
                        &&& restarted(
                            group_failure_counted(taken, message),
                            after,
                            message@,
                            result_before,
                            result_after,
                            settings,
                        )
                    },
                }
            };
        if let Ok(frame) = outcome {
            assert(result_after.frames@.last() == frame);
        }
    }
}

/// A unit that is no dependent is decoded by what it is: a legacy frame by
/// `legacy`, whose core is held; one that dependents may follow, without objects
/// of its own, by `core`, which is held too; any other one, and a legacy frame
/// that failed, by `whole`, whose frame is judged and goes out.
pub proof fn units_are_decoded_by_what_they_are<
    C,
    P,
    M,
    FL: FnOnce(&[u8]) -> Result<C, String>,
    FC: FnOnce(&[u8]) -> Result<P, String>,
    FW: FnOnce(&[u8]) -> Result<DecodedFrame, String>,
    FJ: FnOnce(&DecodedFrame) -> (bool, bool),
>(
    before: AtmosBridge<C, P, M>,
    after: AtmosBridge<C, P, M>,
    unit: &[u8],
    kind: Eac3UnitKind,
    legacy: FL,
    core: FC,
    whole: FW,
    judge: FJ,
    silence: (bool, bool),
    results: (PushResult, PushResult),
    stopped: Option<DecoderSettings>,
)
    requires
        unit_decoded(
            before,
            after,
            unit,
            kind,
            legacy,
            core,
            whole,
            judge,
            silence,
            results,
            stopped,
        ),
        before.pending_eac3_core is None,
    ensures
        ({
            let plain = kind.can_carry_dependents && !kind.carries_joc;
            let by_legacy = after.pending_eac3_core matches Some(held) && held.core is LegacyAc3;
            let by_core = after.pending_eac3_core matches Some(held) && held.core is Independent;
            &&& by_legacy ==> {
                &&& kind.legacy
                &&& legacy.ensures((unit,), Ok(after.pending_eac3_core->0.core->core))
                &&& after.pending_eac3_core->0.core->access_unit@ == unit@
                &&& after.pending_eac3_core->0.dependents@.len() == 0
                &&& results.1 == results.0
            }
            &&& by_core ==> {
                &&& plain
                &&& core.ensures((unit,), Ok(after.pending_eac3_core->0.core->Independent_0))
                &&& after.pending_eac3_core->0.dependents@.len() == 0
                &&& results.1 == results.0
            }
            &&& !by_legacy && !by_core && stopped is None ==> {
                &&& !plain
                &&& exists|frame: DecodedFrame, verdict: (bool, bool)|
                    {
                        &&& #[trigger] whole.ensures((unit,), Ok(frame))
                        &&& #[trigger] judge.ensures((&frame,), verdict)
                        &&& results.1.frames@ == if verdict.0 && !(verdict.1 && silence.0) {
                            results.0.frames@.push(frame)
                        } else {
                            results.0.frames@
                        }
                    }
            }
            &&& !kind.legacy && plain && stopped is Some ==> exists|error: String|
                {
                    &&& #[trigger] core.ensures((unit,), Err(error))
                    &&& results.1.error_message@ == "E-AC3 core decode error: "@ + error@
                }
            &&& !kind.legacy && !plain && stopped is Some ==> exists|error: String|
                {
                    &&& #[trigger] whole.ensures((unit,), Err(error))
                    &&& results.1.error_message@ == error@
                }
            &&& stopped is Some ==> results.1.did_reset && results.1.frames@ == results.0.frames@
        }),
{
}

} // verus!
