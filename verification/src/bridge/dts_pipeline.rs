//! The DTS path of the bridge: what each step of demultiplexing and each
//! decoded frame leads to.

use crate::bridge::bridge::{AtmosBridge, PushResult};
use crate::bridge::dts_demux::{answers, demux_step, DtsDemux, DtsReply, DtsRequest};
use crate::bridge::dts_frame::{
    bed_is_even, build_core_frame, build_hd_frame_with_extensions, core_columns, core_fits,
    core_labels, frame_fits, is_reported, plays, presents, presents_objects, reported_finding,
    state_after, told_after, BuiltFrame, CoreFrame, DtsXState, Finding, HdFrame,
};
use crate::bridge::dts_objects::{declared_list, Announced};
use crate::bridge::auro_stage::Phase;
use crate::bridge::codec::DtsProfile;
use crate::bridge::frame::DecodedFrame;
use vstd::prelude::*;

verus! {

/// The profile that a request stands for, where it starts a frame.
pub open spec fn profile_after(before: DtsProfile, request: DtsRequest) -> DtsProfile {
    match request {
        DtsRequest::DecodeCore { profile, .. } => profile,
        DtsRequest::DecodeHd { profile, .. } => profile,
        _ => before,
    }
}

/// The extension state once a frame's further bed channels were looked at.
pub open spec fn noted_bed<M>(state: DtsXState<M>, bed_extension_failed: bool) -> DtsXState<M> {
    if bed_extension_failed {
        DtsXState { bed_extension_dropouts: (state.bed_extension_dropouts + 1) as u64, ..state }
    } else {
        state
    }
}

/// What a decoded DTS-HD frame led to.
#[derive(Debug)]
pub struct HdOutcome {
    /// The frame, where the Auro stage is to route it.
    pub to_route: Option<DecodedFrame>,
    /// It is reported that further bed channels did not decode.
    pub bed_dropout_reported: bool,
    /// What is reported of the frame's extension.
    pub reported: Option<Finding>,
}

/// A reply was taken: the demultiplexer went one step, the profile is that of
/// the frame to decode, and once nothing more can be done the bytes that are
/// dealt with have left the buffer.
pub open spec fn drained<C, P, M>(
    before: AtmosBridge<C, P, M>,
    after: AtmosBridge<C, P, M>,
    demux_before: DtsDemux,
    demux_after: DtsDemux,
    reply: DtsReply,
    request: DtsRequest,
) -> bool {
    &&& (demux_after, request) == demux_step(before.dts_buf@, demux_before, reply)
    &&& after.dts_buf@ == if request is Done {
        before.dts_buf@.skip(demux_after.consumed as int)
    } else {
        before.dts_buf@
    }
    &&& after == (AtmosBridge {
        dts_buf: after.dts_buf,
        dts_profile: profile_after(before.dts_profile, request),
        ..before
    })
}

/// A decoded DTS core was taken in: its frame went out behind all that the Auro
/// stage held, and the stream went on by its samples.
pub open spec fn core_taken_in<C, P, M>(
    before: AtmosBridge<C, P, M>,
    after: AtmosBridge<C, P, M>,
    core: &CoreFrame,
    result_before: PushResult,
    result_after: PushResult,
) -> bool {
    let earlier = result_before.frames@ + before.dts_auro.held_frames();
    let frame = result_after.frames@.last();
    &&& after == (AtmosBridge {
        dts_objects_active: false,
        dts_surrounds_on_side: false,
        dts_auro: after.dts_auro,
        total_samples: (before.total_samples + core.sample_count) as u64,
        dts_frame_count: (before.dts_frame_count + 1) as u64,
        ..before
    })
    &&& after.dts_auro.max_block == before.dts_auro.max_block
    &&& after.dts_auro.phase == if before.dts_auro.phase is Undecided {
        Phase::Plain
    } else {
        before.dts_auro.phase
    }
    &&& result_after.error_message == result_before.error_message
    &&& result_after.did_reset == result_before.did_reset
    &&& result_after.frames@.len() == earlier.len() + 1
    &&& result_after.frames@.drop_last() == earlier
    &&& plays(
        frame,
        core.sample_rate,
        core.sample_count as int,
        core_columns(core),
        core_labels(core),
    )
    &&& frame.metadata@.len() == 0
}

/// A decoded DTS-HD frame was taken in. A lossless one is to be routed by the
/// Auro stage; a lossy one went out behind all that the stage held. One with an
/// uneven bed is dropped, and the stream goes on by its samples all the same.
pub open spec fn hd_taken_in<C, P, M>(
    before: AtmosBridge<C, P, M>,
    after: AtmosBridge<C, P, M>,
    hd: &HdFrame,
    lossless: bool,
    surrounds_on_side: bool,
    bed_extension_failed: bool,
    result_before: PushResult,
    result_after: PushResult,
    outcome: HdOutcome,
) -> bool {
    let even = bed_is_even(hd.samples@, hd.sample_count as int);
    let state = noted_bed(before.dts_x, bed_extension_failed);
    let passed = even && !lossless;
    &&& result_after.error_message == result_before.error_message
    &&& result_after.did_reset == result_before.did_reset
    &&& after == (AtmosBridge {
        dts_surrounds_on_side: surrounds_on_side,
        dts_objects_active: if even {
            presents_objects(hd, &state)
        } else {
            before.dts_objects_active
        },
        dts_x: after.dts_x,
        dts_auro: after.dts_auro,
        declared_object_channels: after.declared_object_channels,
        total_samples: (before.total_samples + hd.sample_count) as u64,
        dts_frame_count: (before.dts_frame_count + 1) as u64,
        ..before
    })
    &&& after.dts_x == (DtsXState {
        emitted_positions: after.dts_x.emitted_positions,
        ..if even {
            state_after(hd, state)
        } else {
            state
        }
    })
    &&& after.told() == if even {
        told_after(hd, &state, before.told(), before.total_samples)
    } else {
        before.told()
    }
    &&& after.dts_auro.phase == if passed && before.dts_auro.phase is Undecided {
        Phase::Plain
    } else {
        before.dts_auro.phase
    }
    &&& after.dts_auro.max_block == before.dts_auro.max_block
    &&& outcome.bed_dropout_reported == (bed_extension_failed && is_reported(
        before.dts_x.bed_extension_dropouts + 1,
    ))
    &&& outcome.reported == if even {
        reported_finding(hd, &state)
    } else {
        None
    }
    &&& outcome.to_route is Some == (even && lossless)
    &&& outcome.to_route matches Some(frame) ==> presents(
        frame,
        hd,
        &state,
        before.told(),
        before.total_samples,
    )
    &&& if passed {
        let earlier = result_before.frames@ + before.dts_auro.held_frames();
        &&& result_after.frames@.len() == earlier.len() + 1
        &&& result_after.frames@.drop_last() == earlier
        &&& presents(
            result_after.frames@.last(),
            hd,
            &state,
            before.told(),
            before.total_samples,
        )
    } else {
        result_after.frames@ == result_before.frames@
    }
}

impl<C, P, M> AtmosBridge<C, P, M> {
    /// What the renderer was told last of DTS objects.
    pub open spec fn told(&self) -> Announced {
        Announced {
            emitted: self.dts_x.emitted_positions@,
            declared: declared_list(self.declared_object_channels),
        }
    }

    /// Takes a reply of the DTS decoder and says what is needed next. Once
    /// nothing more can be done, the bytes that are dealt with leave the
    /// buffer.
    pub fn drain_dts(&mut self, demux: &mut DtsDemux, reply: DtsReply) -> (request: DtsRequest)
        requires
            old(self).wf(),
            old(demux).wf(old(self).dts_buf@),
            answers(old(demux).stage, reply),
        ensures
            final(self).wf(),
            final(demux).wf(old(self).dts_buf@),
            drained(*old(self), *final(self), *old(demux), *final(demux), reply, request),
    {
        let request: DtsRequest = demux.step(&self.dts_buf, reply);
        match request {
            DtsRequest::DecodeCore { profile, .. } => {
                self.dts_profile = profile;
            },
            DtsRequest::DecodeHd { profile, .. } => {
                self.dts_profile = profile;
            },
            DtsRequest::Done => {
                let kept: Vec<u8> = self.dts_buf.split_off(demux.consumed);
                assert(kept@ =~= old(self).dts_buf@.skip(demux.consumed as int));
                self.dts_buf = kept;
            },
            _ => {},
        }
        request
    }

    /// A DTS core was decoded: its frame goes out, behind all that the Auro
    /// stage held, for a core is no carrier.
    pub fn dts_core_decoded(&mut self, core: &CoreFrame, result: &mut PushResult)
        requires
            old(self).wf(),
            core_fits(core),
            old(self).total_samples + core.sample_count <= u64::MAX,
            old(self).dts_frame_count < u64::MAX,
        ensures
            final(self).wf(),
            core_taken_in(*old(self), *final(self), core, *old(result), *final(result)),
    {
        self.dts_objects_active = false;
        self.dts_surrounds_on_side = false;
        self.dts_auro.not_a_carrier(&mut result.frames);
        let ghost before = result.frames@;
        result.frames.push(build_core_frame(core));
        assert(result.frames@.drop_last() =~= before);
        self.total_samples = self.total_samples + core.sample_count as u64;
        self.dts_frame_count = self.dts_frame_count + 1;
    }

    /// Builds the frame of decoded DTS-HD audio, and says whether it is reported
    /// that further bed channels did not decode.
    fn build_dts_hd(&mut self, hd: &HdFrame, bed_extension_failed: bool) -> (built: (
        Option<BuiltFrame>,
        bool,
    ))
        requires
            frame_fits(hd),
            old(self).dts_x.bed_extension_dropouts < u64::MAX,
            old(self).dts_x.feed_dropouts < u64::MAX,
            old(self).dts_x.undecodable_extensions < u64::MAX,
        ensures
            *final(self) == (AtmosBridge {
                dts_x: final(self).dts_x,
                declared_object_channels: final(self).declared_object_channels,
                ..*old(self)
            }),
            built.1 == (bed_extension_failed && is_reported(
                old(self).dts_x.bed_extension_dropouts + 1,
            )),
            ({
                let state = noted_bed(old(self).dts_x, bed_extension_failed);
                if bed_is_even(hd.samples@, hd.sample_count as int) {
                    &&& built.0 matches Some(frame)
                    &&& final(self).dts_x == (DtsXState {
                        emitted_positions: final(self).dts_x.emitted_positions,
                        ..state_after(hd, state)
                    })
                    &&& final(self).told() == told_after(
                        hd,
                        &state,
                        old(self).told(),
                        old(self).total_samples,
                    )
                    &&& presents(
                        frame.frame,
                        hd,
                        &state,
                        old(self).told(),
                        old(self).total_samples,
                    )
                    &&& frame.has_objects == presents_objects(hd, &state)
                    &&& frame.reported == reported_finding(hd, &state)
                } else {
                    &&& built.0 is None
                    &&& final(self).dts_x == state
                    &&& final(self).told() == old(self).told()
                }
            }),
    {
        let mut reported: bool = false;
        if bed_extension_failed {
            reported = self.dts_x.note_bed_extension_dropout();
        }
        let sample_pos: u64 = self.total_samples;
        let built: Option<BuiltFrame> = build_hd_frame_with_extensions(
            hd,
            &mut self.dts_x,
            sample_pos,
            &mut self.declared_object_channels,
        );
        (built, reported)
    }

    /// A DTS-HD frame was decoded. A lossless one is returned, to be routed by
    /// the Auro stage; a lossy one goes out, behind all that the stage held,
    /// for it has no side channel to read.
    pub fn dts_hd_decoded(
        &mut self,
        hd: &HdFrame,
        lossless: bool,
        surrounds_on_side: bool,
        bed_extension_failed: bool,
        result: &mut PushResult,
    ) -> (outcome: HdOutcome)
        requires
            old(self).wf(),
            frame_fits(hd),
            old(self).total_samples + hd.sample_count <= u64::MAX,
            old(self).dts_frame_count < u64::MAX,
            old(self).dts_x.bed_extension_dropouts < u64::MAX,
            old(self).dts_x.feed_dropouts < u64::MAX,
            old(self).dts_x.undecodable_extensions < u64::MAX,
        ensures
            final(self).wf(),
            hd_taken_in(
                *old(self),
                *final(self),
                hd,
                lossless,
                surrounds_on_side,
                bed_extension_failed,
                *old(result),
                *final(result),
                outcome,
            ),
    {
        self.dts_surrounds_on_side = surrounds_on_side;
        let (built, bed_dropout_reported) = self.build_dts_hd(hd, bed_extension_failed);
        self.total_samples = self.total_samples + hd.sample_count as u64;
        self.dts_frame_count = self.dts_frame_count + 1;
        let built: BuiltFrame = match built {
            Some(built) => built,
            None => {
                return HdOutcome { to_route: None, bed_dropout_reported, reported: None };
            },
        };
        self.dts_objects_active = built.has_objects;
        if lossless {
            return HdOutcome {
                to_route: Some(built.frame),
                bed_dropout_reported,
                reported: built.reported,
            };
        }
        self.dts_auro.not_a_carrier(&mut result.frames);
        let ghost before = result.frames@;
        result.frames.push(built.frame);
        assert(result.frames@.drop_last() =~= before);
        HdOutcome { to_route: None, bed_dropout_reported, reported: built.reported }
    }
}

} // verus!
