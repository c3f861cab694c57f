//! Stateful decoders for core and object audio.
//!
//! Reading the syntax of an access unit and decoding its transform coefficients
//! are handed in. The decoders settle what is decoded when, what a failure and
//! a splice do to the history, and what comes out.

use crate::eac3::frame::{
    delay_after, delay_fits, delayed_core, empty_delay, merges_to, overlay_dependent, samples_of,
    CoreAlignmentDelay, CorePcmFrame,
};
use crate::eac3::reconstruction::{JocObjectDecoderState, ObjectMix};
use crate::eac3::synthesis::{frame_decoded, frame_fits, sound_result};
use crate::eac3::types::{JocPayload, ParseError};
use crate::level::Level;
use vstd::prelude::*;

verus! {

/// Number of values that the JOC sequence counter goes through.
pub const JOC_SEQUENCE_LENGTH: u16 = 1024;

/// What a metadata payload holds. `G` is the type of a gain and `O` that of an
/// object metadata payload.
#[derive(Debug)]
pub enum ParsedEmdfPayloadData<G, O> {
    Joc(JocPayload<G>),
    Oamd(O),
    Other,
}

/// A metadata payload and where in the frame it applies.
#[derive(Debug)]
pub struct EmdfPayload<G, O> {
    pub parsed: ParsedEmdfPayloadData<G, O>,
    pub sample_offset: Option<u16>,
}

/// What reading the syntax of an access unit shows.
#[derive(Debug)]
pub struct AccessUnitInfo<G, O> {
    pub frame_size: usize,
    pub dependent_channel_map: Option<u16>,
    pub payloads: Vec<EmdfPayload<G, O>>,
}

/// The first payload from `index` on that is a JOC payload.
pub open spec fn first_joc<G, O>(payloads: Seq<EmdfPayload<G, O>>, index: int) -> Option<int>
    decreases payloads.len() - index,
{
    if index >= payloads.len() {
        None
    } else if payloads[index].parsed is Joc {
        Some(index)
    } else {
        first_joc(payloads, index + 1)
    }
}

/// Number of JOC payloads from `index` on.
pub open spec fn joc_count<G, O>(payloads: Seq<EmdfPayload<G, O>>, index: int) -> nat
    decreases payloads.len() - index,
{
    if index >= payloads.len() {
        0
    } else {
        joc_count(payloads, index + 1) + if payloads[index].parsed is Joc {
            1nat
        } else {
            0nat
        }
    }
}

/// The JOC payload at `index`.
pub open spec fn joc_at<G, O>(payloads: Seq<EmdfPayload<G, O>>, index: int) -> JocPayload<G> {
    payloads[index].parsed->Joc_0
}

/// A payload that is found is a JOC payload in range.
pub proof fn lemma_first_joc<G, O>(payloads: Seq<EmdfPayload<G, O>>, index: int)
    requires
        0 <= index,
    ensures
        first_joc(payloads, index) matches Some(found) ==> index <= found < payloads.len()
            && payloads[found].parsed is Joc,
        first_joc(payloads, index) is None <==> joc_count(payloads, index) == 0,
    decreases payloads.len() - index,
{
    if index < payloads.len() && !(payloads[index].parsed is Joc) {
        lemma_first_joc(payloads, index + 1);
    }
}

impl<G, O> AccessUnitInfo<G, O> {
    /// Number of JOC payloads.
    pub fn joc_payload_count(&self) -> (count: usize)
        ensures
            count == joc_count(self.payloads@, 0),
    {
        let total: usize = self.payloads.len();
        let mut count: usize = 0;
        let mut left: usize = total;
        while left > 0
            invariant
                left <= total == self.payloads@.len(),
                count <= total - left,
                count == joc_count(self.payloads@, left as int),
            decreases left,
        {
            left = left - 1;
            if let ParsedEmdfPayloadData::Joc(_) = &self.payloads[left].parsed {
                count = count + 1;
            }
        }
        count
    }

    /// The place of the first JOC payload.
    pub fn first_joc_index(&self) -> (found: Option<usize>)
        ensures
            match found {
                Some(index) => {
                    &&& first_joc(self.payloads@, 0) == Some(index as int)
                    &&& index < self.payloads@.len()
                    &&& self.payloads@[index as int].parsed is Joc
                },
                None => first_joc(self.payloads@, 0) is None,
            },
    {
        let mut index: usize = 0;
        while index < self.payloads.len()
            invariant
                index <= self.payloads@.len(),
                first_joc(self.payloads@, 0) == first_joc(self.payloads@, index as int),
            decreases self.payloads.len() - index,
        {
            if let ParsedEmdfPayloadData::Joc(_) = &self.payloads[index].parsed {
                return Some(index);
            }
            index = index + 1;
        }
        None
    }

    /// The first JOC payload.
    pub fn first_joc_payload(&self) -> (joc: Option<&JocPayload<G>>)
        ensures
            match joc {
                Some(payload) => first_joc(self.payloads@, 0) matches Some(index) && *payload
                    == joc_at(self.payloads@, index),
                None => first_joc(self.payloads@, 0) is None,
            },
    {
        match self.first_joc_index() {
            Some(index) => match &self.payloads[index].parsed {
                ParsedEmdfPayloadData::Joc(joc) => Some(joc),
                _ => None,
            },
            None => None,
        }
    }
}

/// Why an access unit of `provided` bytes does not have the size it says.
pub open spec fn size_error(provided: nat, frame_size: usize) -> Option<ParseError> {
    if provided < frame_size {
        Some(ParseError::TruncatedFrame { expected: frame_size, available: provided as usize })
    } else if provided != frame_size {
        Some(ParseError::TrailingData { expected: frame_size, provided: provided as usize })
    } else {
        None
    }
}

/// Checks that an access unit has the size it says.
fn check_size(provided: usize, frame_size: usize) -> (result: Result<(), ParseError>)
    ensures
        match size_error(provided as nat, frame_size) {
            Some(reason) => result matches Err(error) && error == reason,
            None => result is Ok,
        },
{
    if provided < frame_size {
        return Err(ParseError::TruncatedFrame { expected: frame_size, available: provided });
    }
    if provided != frame_size {
        return Err(ParseError::TrailingData { expected: frame_size, provided });
    }
    Ok(())
}

/// A decoded core, and what its last block says of spectral extension.
#[derive(Debug)]
pub struct CoreDecode<S> {
    pub pcm: CorePcmFrame<S>,
    pub spx_in_use: bool,
    pub chinspx: Vec<bool>,
}

/// Result of [`PcmDecoder::push_access_unit`].
#[derive(Debug)]
pub struct PcmPushResult<S, G, O> {
    pub frames_seen: u64,
    pub info: AccessUnitInfo<G, O>,
    pub pcm: CorePcmFrame<S>,
}

/// Stateful decoder for the core channels.
///
/// `history` is the cross-frame state of reading and decoding units, of which
/// `fresh` gives one that has seen nothing. Frames must come in order, and
/// [`PcmDecoder::reset`] must be called after discontinuities.
#[derive(Debug)]
pub struct PcmDecoder<H, F> {
    pub frames_seen: u64,
    pub history: H,
    pub spx_in_use: bool,
    pub chinspx: Vec<bool>,
    pub debug_log_level: Level,
    pub fresh: F,
}

/// What pushing an access unit does to a decoder and returns. Each step of
/// reading and decoding takes the history of the one before and gives its own;
/// after an error none of it is left.
pub open spec fn core_pushed<S, G, O, H, F, I, D>(
    before: PcmDecoder<H, F>,
    after: PcmDecoder<H, F>,
    access_unit: &[u8],
    inspect: I,
    decode: D,
    result: Result<PcmPushResult<S, G, O>, ParseError>,
) -> bool where
    F: Fn() -> H,
    I: FnOnce(&[u8], Level, H) -> (H, Result<AccessUnitInfo<G, O>, ParseError>),
    D: FnOnce(&[u8], &AccessUnitInfo<G, O>, H) -> (H, Result<CoreDecode<S>, ParseError>),
 {
    &&& after.debug_log_level == before.debug_log_level
    &&& after.fresh == before.fresh
    &&& result is Err ==> after.cold() && after.frames_seen == before.frames_seen
    &&& exists|read: H, inspected: Result<AccessUnitInfo<G, O>, ParseError>|
        {
            &&& #[trigger] inspect.ensures(
                (access_unit, before.debug_log_level, before.history),
                (read, inspected),
            )
            &&& match inspected {
                Err(reason) => result matches Err(error) && error == reason,
                Ok(info) => match size_error(access_unit@.len(), info.frame_size) {
                    Some(reason) => result matches Err(error) && error == reason,
                    None => exists|left: H, decoded: Result<CoreDecode<S>, ParseError>|
                        {
                            &&& #[trigger] decode.ensures(
                                (access_unit, &info, read),
                                (left, decoded),
                            )
                            &&& match decoded {
                                Err(reason) => result matches Err(error) && error == reason,
                                Ok(core) => {
                                    &&& result matches Ok(push)
                                    &&& push.frames_seen == before.frames_seen + 1
                                    &&& push.info == info
                                    &&& push.pcm == core.pcm
                                    &&& after.frames_seen == push.frames_seen
                                    &&& after.history == left
                                    &&& after.spx_in_use == core.spx_in_use
                                    &&& after.chinspx == core.chinspx
                                },
                            }
                        },
                },
            }
        }
}

/// What a call means for the count of frames.
pub enum PcmCall {
    /// A push that was accepted.
    Accepted,
    /// A push that failed.
    Failed,
    /// A reset.
    Reset,
}

/// The count of frames after a call.
pub open spec fn count_after(count: int, call: PcmCall) -> int {
    match call {
        PcmCall::Accepted => count + 1,
        PcmCall::Failed => count,
        PcmCall::Reset => 0,
    }
}

/// The call that a push with this result is.
pub open spec fn call_of<T>(result: Result<T, ParseError>) -> PcmCall {
    match result {
        Ok(_) => PcmCall::Accepted,
        Err(_) => PcmCall::Failed,
    }
}

impl<H, F: Fn() -> H> PcmDecoder<H, F> {
    /// A history that has seen nothing can be had.
    pub open spec fn wf(&self) -> bool {
        self.fresh.requires(())
    }

    /// No cross-frame state is held.
    pub open spec fn cold(&self) -> bool {
        &&& self.fresh.ensures((), self.history)
        &&& !self.spx_in_use
        &&& self.chinspx@.len() == 0
    }

    /// A fresh decoder.
    pub fn new(fresh: F) -> (decoder: Self)
        requires
            fresh.requires(()),
        ensures
            decoder.wf(),
            is_new(decoder, fresh, Level::Debug),
    {
        let history: H = fresh();
        PcmDecoder {
            frames_seen: 0,
            history,
            spx_in_use: false,
            chinspx: Vec::new(),
            debug_log_level: Level::Debug,
            fresh,
        }
    }

    /// Resets all cross-frame decode state: the decoder is a new one, set to the
    /// same level.
    pub fn reset(&mut self)
        requires
            old(self).wf(),
        ensures
            final(self).wf(),
            is_new(*final(self), old(self).fresh, old(self).debug_log_level),
            final(self).frames_seen == count_after(old(self).frames_seen as int, PcmCall::Reset),
    {
        self.frames_seen = 0;
        self.reset_decode_state();
    }

    /// Resets the cross-frame bitstream state without touching the count of
    /// frames. A failed decode can leave that state partially changed, so it is
    /// never carried into the next frame.
    pub fn reset_decode_state(&mut self)
        requires
            old(self).wf(),
        ensures
            final(self).cold(),
            final(self).fresh == old(self).fresh,
            final(self).frames_seen == old(self).frames_seen,
            final(self).debug_log_level == old(self).debug_log_level,
    {
        let fresh: &F = &self.fresh;
        let history: H = fresh();
        self.history = history;
        self.spx_in_use = false;
        self.chinspx = Vec::new();
    }

    /// Number of access units accepted since the last reset.
    pub fn frames_seen(&self) -> (count: u64)
        ensures
            count == self.frames_seen,
    {
        self.frames_seen
    }

    /// Whether the most recently decoded block had spectral extension active.
    pub fn last_spx_in_use(&self) -> (in_use: bool)
        ensures
            in_use == self.spx_in_use,
    {
        self.spx_in_use
    }

    /// Which channels took part in spectral extension at the end of the most
    /// recently decoded block. Empty before the first frame.
    pub fn last_chinspx(&self) -> (flags: &[bool])
        ensures
            flags@ == self.chinspx@,
    {
        self.chinspx.as_slice()
    }

    /// Sets the level of metadata diagnostics for this decoder.
    pub fn set_debug_log_level(&mut self, level: Level)
        ensures
            *final(self) == (PcmDecoder { debug_log_level: level, ..*old(self) }),
    {
        self.debug_log_level = level;
    }

    /// The level that metadata diagnostics are set to before a unit is read.
    pub fn apply_debug_log_level(&self) -> (level: Level)
        ensures
            level == self.debug_log_level,
    {
        self.debug_log_level
    }

    /// Decodes one complete access unit into core audio.
    ///
    /// `inspect` reads the unit's syntax, at the given diagnostic level, and
    /// `decode` decodes its core once its size is right; both go on with the
    /// history they are given. On an error the cross-frame state is reset: a
    /// failed decode may have left it partially changed, and reusing it would
    /// corrupt every following frame.
    pub fn push_access_unit<S, G, O, I, D>(
        &mut self,
        access_unit: &[u8],
        inspect: I,
        decode: D,
    ) -> (result: Result<PcmPushResult<S, G, O>, ParseError>) where
        I: FnOnce(&[u8], Level, H) -> (H, Result<AccessUnitInfo<G, O>, ParseError>),
        D: FnOnce(&[u8], &AccessUnitInfo<G, O>, H) -> (H, Result<CoreDecode<S>, ParseError>),

        requires
            old(self).wf(),
            old(self).frames_seen < u64::MAX,
            inspect.requires((access_unit, old(self).debug_log_level, old(self).history)),
            forall|info: AccessUnitInfo<G, O>, history: H| #[trigger]
                decode.requires((access_unit, &info, history)),
        ensures
            core_pushed(*old(self), *final(self), access_unit, inspect, decode, result),
            final(self).frames_seen == count_after(
                old(self).frames_seen as int,
                call_of(result),
            ),
            result matches Ok(push) ==> push.frames_seen == final(self).frames_seen,
    {
        let fresh: &F = &self.fresh;
        let mut history: H = fresh();
        core::mem::swap(&mut self.history, &mut history);
        let (read, inspected) = inspect(access_unit, self.debug_log_level, history);
        let info: AccessUnitInfo<G, O> = match inspected {
            Ok(info) => info,
            Err(error) => {
                self.reset_decode_state();
                return Err(error);
            },
        };
        if let Err(error) = check_size(access_unit.len(), info.frame_size) {
            self.reset_decode_state();
            return Err(error);
        }
        let (left, decoded) = decode(access_unit, &info, read);
        match decoded {
            Ok(core) => {
                self.frames_seen = self.frames_seen + 1;
                self.history = left;
                self.spx_in_use = core.spx_in_use;
                self.chinspx = core.chinspx;
                Ok(PcmPushResult { frames_seen: self.frames_seen, info, pcm: core.pcm })
            },
            Err(error) => {
                self.reset_decode_state();
                Err(error)
            },
        }
    }

    /// Decodes one complete legacy AC-3 frame into core audio.
    ///
    /// `inspect` reads a legacy frame; all else is as in
    /// [`PcmDecoder::push_access_unit`].
    pub fn push_legacy_ac3_access_unit<S, G, O, I, D>(
        &mut self,
        access_unit: &[u8],
        inspect: I,
        decode: D,
    ) -> (result: Result<PcmPushResult<S, G, O>, ParseError>) where
        I: FnOnce(&[u8], Level, H) -> (H, Result<AccessUnitInfo<G, O>, ParseError>),
        D: FnOnce(&[u8], &AccessUnitInfo<G, O>, H) -> (H, Result<CoreDecode<S>, ParseError>),

        requires
            old(self).wf(),
            old(self).frames_seen < u64::MAX,
            inspect.requires((access_unit, old(self).debug_log_level, old(self).history)),
            forall|info: AccessUnitInfo<G, O>, history: H| #[trigger]
                decode.requires((access_unit, &info, history)),
        ensures
            core_pushed(*old(self), *final(self), access_unit, inspect, decode, result),
            final(self).frames_seen == count_after(
                old(self).frames_seen as int,
                call_of(result),
            ),
            result matches Ok(push) ==> push.frames_seen == final(self).frames_seen,
    {
        self.push_access_unit(access_unit, inspect, decode)
    }
}

/// Decodes the dependent substream of a core and merges its channels onto it,
/// placing them by the dependent's channel map. Returns `None`, so that the
/// caller falls back to the core alone, when the dependent cannot be decoded or
/// does not line up.
pub fn merge_core_with_dependent<S: Copy, G, O, H, F: Fn() -> H, I, D>(
    dependent_decoder: &mut PcmDecoder<H, F>,
    core: &CorePcmFrame<S>,
    dependent_frame: &[u8],
    inspect: I,
    decode: D,
) -> (merged: Option<CorePcmFrame<S>>) where
    I: FnOnce(&[u8], Level, H) -> (H, Result<AccessUnitInfo<G, O>, ParseError>),
    D: FnOnce(&[u8], &AccessUnitInfo<G, O>, H) -> (H, Result<CoreDecode<S>, ParseError>),

    requires
        old(dependent_decoder).wf(),
        old(dependent_decoder).frames_seen < u64::MAX,
        inspect.requires(
            (
                dependent_frame,
                old(dependent_decoder).debug_log_level,
                old(dependent_decoder).history,
            ),
        ),
        forall|info: AccessUnitInfo<G, O>, history: H| #[trigger]
            decode.requires((dependent_frame, &info, history)),
        core.fullband_channel_order@.len() <= core.fullband_channels@.len(),
    ensures
        exists|pushed: Result<PcmPushResult<S, G, O>, ParseError>|
            {
                &&& #[trigger] core_pushed(
                    *old(dependent_decoder),
                    *final(dependent_decoder),
                    dependent_frame,
                    inspect,
                    decode,
                    pushed,
                )
                &&& match pushed {
                    Ok(push) => merges_to(
                        core@,
                        push.pcm@,
                        push.info.dependent_channel_map,
                        merged,
                    ),
                    Err(_) => merged is None,
                }
            },
{
    let pushed: Result<PcmPushResult<S, G, O>, ParseError> = dependent_decoder.push_access_unit(
        dependent_frame,
        inspect,
        decode,
    );
    match pushed {
        Ok(push) => overlay_dependent(core, &push.pcm, push.info.dependent_channel_map),
        Err(_) => None,
    }
}

/// Two results agree but for the count of frames.
pub open spec fn same_but_count<S, G, O>(
    left: Result<PcmPushResult<S, G, O>, ParseError>,
    right: Result<PcmPushResult<S, G, O>, ParseError>,
) -> bool {
    match (left, right) {
        (Ok(one), Ok(other)) => one.info == other.info && one.pcm == other.pcm,
        (Err(one), Err(other)) => one == other,
        _ => false,
    }
}

/// `decoder` is what [`PcmDecoder::new`] gives, set to this level.
pub open spec fn is_new<H, F: Fn() -> H>(
    decoder: PcmDecoder<H, F>,
    fresh: F,
    level: Level,
) -> bool {
    &&& decoder.fresh == fresh
    &&& decoder.cold()
    &&& decoder.frames_seen == 0
    &&& decoder.debug_log_level == level
}

/// A decoder that holds no cross-frame state, as after a failed push or a
/// reset, pushes the next unit as a new one does, apart from the count of
/// frames.
pub proof fn cold_decoders_push_as_new<S, G, O, H, F: Fn() -> H, I, D>(
    cold: PcmDecoder<H, F>,
    after: PcmDecoder<H, F>,
    access_unit: &[u8],
    inspect: I,
    decode: D,
    result: Result<PcmPushResult<S, G, O>, ParseError>,
) where
    I: FnOnce(&[u8], Level, H) -> (H, Result<AccessUnitInfo<G, O>, ParseError>),
    D: FnOnce(&[u8], &AccessUnitInfo<G, O>, H) -> (H, Result<CoreDecode<S>, ParseError>),

    requires
        cold.cold(),
        core_pushed(cold, after, access_unit, inspect, decode, result),
    ensures
        exists|
            new: PcmDecoder<H, F>,
            new_after: PcmDecoder<H, F>,
            new_result: Result<PcmPushResult<S, G, O>, ParseError>,
        |
            {
                &&& is_new(new, cold.fresh, cold.debug_log_level)
                &&& #[trigger] core_pushed(
                    new,
                    new_after,
                    access_unit,
                    inspect,
                    decode,
                    new_result,
                )
                &&& same_but_count(result, new_result)
                &&& new_after == (PcmDecoder { frames_seen: new_after.frames_seen, ..after })
            },
{
    let new = PcmDecoder { frames_seen: 0, ..cold };
    let new_result = match result {
        Ok(push) => Ok(PcmPushResult { frames_seen: 1, ..push }),
        Err(error) => Err(error),
    };
    let new_after = PcmDecoder {
        frames_seen: if result is Ok {
            1
        } else {
            0
        },
        ..after
    };
    assert(is_new(new, cold.fresh, cold.debug_log_level));
    assert(core_pushed(new, new_after, access_unit, inspect, decode, new_result));
}

/// A push that fails leaves the count of frames, and a decoder that pushes the
/// next unit as a new one does, apart from that count.
pub proof fn failures_leave_a_new_decoder<S, G, O, H, F: Fn() -> H, I, D, J, E>(
    before: PcmDecoder<H, F>,
    failed: PcmDecoder<H, F>,
    bad_unit: &[u8],
    bad_inspect: I,
    bad_decode: D,
    error: ParseError,
    after: PcmDecoder<H, F>,
    access_unit: &[u8],
    inspect: J,
    decode: E,
    result: Result<PcmPushResult<S, G, O>, ParseError>,
) where
    I: FnOnce(&[u8], Level, H) -> (H, Result<AccessUnitInfo<G, O>, ParseError>),
    D: FnOnce(&[u8], &AccessUnitInfo<G, O>, H) -> (H, Result<CoreDecode<S>, ParseError>),
    J: FnOnce(&[u8], Level, H) -> (H, Result<AccessUnitInfo<G, O>, ParseError>),
    E: FnOnce(&[u8], &AccessUnitInfo<G, O>, H) -> (H, Result<CoreDecode<S>, ParseError>),

    requires
        core_pushed::<S, G, O, H, F, I, D>(
            before,
            failed,
            bad_unit,
            bad_inspect,
            bad_decode,
            Err(error),
        ),
        core_pushed(failed, after, access_unit, inspect, decode, result),
    ensures
        failed.frames_seen == before.frames_seen,
        exists|
            new: PcmDecoder<H, F>,
            new_after: PcmDecoder<H, F>,
            new_result: Result<PcmPushResult<S, G, O>, ParseError>,
        |
            {
                &&& is_new(new, before.fresh, before.debug_log_level)
                &&& #[trigger] core_pushed(
                    new,
                    new_after,
                    access_unit,
                    inspect,
                    decode,
                    new_result,
                )
                &&& same_but_count(result, new_result)
            },
{
    cold_decoders_push_as_new(failed, after, access_unit, inspect, decode, result);
}

/// Number of accepted pushes among the first `count` calls, since the last
/// reset.
pub open spec fn accepted_since_reset(calls: Seq<PcmCall>, count: int) -> int
    decreases count,
{
    if count <= 0 {
        0
    } else {
        match calls[count - 1] {
            PcmCall::Accepted => accepted_since_reset(calls, count - 1) + 1,
            PcmCall::Failed => accepted_since_reset(calls, count - 1),
            PcmCall::Reset => 0,
        }
    }
}

/// Over any run of calls on a new decoder, the count of frames is the number of
/// pushes that were accepted since the last reset. `states` are the decoder
/// before the first call and after each.
pub proof fn frames_seen_counts_accepted_pushes<H, F: Fn() -> H>(
    states: Seq<PcmDecoder<H, F>>,
    calls: Seq<PcmCall>,
    index: int,
)
    requires
        states.len() == calls.len() + 1,
        states[0].frames_seen == 0,
        forall|call: int|
            0 <= call < calls.len() ==> (#[trigger] states[call + 1]).frames_seen == count_after(
                states[call].frames_seen as int,
                calls[call],
            ),
        0 <= index <= calls.len(),
    ensures
        states[index].frames_seen == accepted_since_reset(calls, index),
    decreases index,
{
    if index > 0 {
        frames_seen_counts_accepted_pushes(states, calls, index - 1);
        assert(states[index - 1 + 1].frames_seen == count_after(
            states[index - 1].frames_seen as int,
            calls[index - 1],
        ));
    }
}

/// A decoder that was reset pushes the next unit as a new one set to the same
/// level does: it is one.
pub proof fn resets_leave_a_new_decoder<S, G, O, H, F: Fn() -> H, I, D>(
    before: PcmDecoder<H, F>,
    reset: PcmDecoder<H, F>,
    after: PcmDecoder<H, F>,
    access_unit: &[u8],
    inspect: I,
    decode: D,
    result: Result<PcmPushResult<S, G, O>, ParseError>,
) where
    I: FnOnce(&[u8], Level, H) -> (H, Result<AccessUnitInfo<G, O>, ParseError>),
    D: FnOnce(&[u8], &AccessUnitInfo<G, O>, H) -> (H, Result<CoreDecode<S>, ParseError>),

    requires
        is_new(reset, before.fresh, before.debug_log_level),
        core_pushed(reset, after, access_unit, inspect, decode, result),
    ensures
        reset.frames_seen == 0,
        exists|new: PcmDecoder<H, F>|
            {
                &&& is_new(new, before.fresh, before.debug_log_level)
                &&& #[trigger] core_pushed(new, after, access_unit, inspect, decode, result)
            },
        result matches Ok(push) ==> push.frames_seen == 1 && after.frames_seen == 1,
{
}

/// An access unit whose objects are to be rebuilt from `core`, with the JOC
/// payload that stands at `joc_index` of its payloads.
#[derive(Debug)]
pub struct ObjectStart<S, G, O> {
    pub info: AccessUnitInfo<G, O>,
    pub joc_index: usize,
    pub core: CorePcmFrame<S>,
}

/// Object audio and the core it goes with, on one clock.
#[derive(Debug)]
pub struct ObjectPcmFrame<S> {
    pub core: CorePcmFrame<S>,
    pub object_channels: Vec<Vec<S>>,
    pub object_active: Vec<bool>,
    /// Place of the JOC payload among the unit's payloads.
    pub joc_index: usize,
    /// Places of the object metadata payloads among the unit's payloads.
    pub oamd_indices: Vec<usize>,
}

impl<S> ObjectPcmFrame<S> {
    /// Number of samples carried by each decoded channel in this frame.
    pub fn samples_per_channel(&self) -> (count: usize)
        ensures
            count == samples_of(self.core@),
    {
        self.core.samples_per_channel()
    }

    /// Number of object channels decoded for this frame.
    pub fn object_count(&self) -> (count: usize)
        ensures
            count == self.object_channels@.len(),
    {
        self.object_channels.len()
    }
}

/// Result of a frame with object data.
#[derive(Debug)]
pub struct ObjectPcmPushResult<S, G, O> {
    pub frames_seen: u64,
    pub info: AccessUnitInfo<G, O>,
    pub pcm: ObjectPcmFrame<S>,
}

impl<S, G, O> ObjectPcmPushResult<S, G, O> {
    /// The payloads that the frame names are where it says.
    pub open spec fn wf(&self) -> bool {
        let payloads = self.info.payloads@;
        &&& self.pcm.joc_index < payloads.len()
        &&& payloads[self.pcm.joc_index as int].parsed is Joc
        &&& forall|index: int|
            0 <= index < self.pcm.oamd_indices@.len() ==> {
                &&& #[trigger] self.pcm.oamd_indices@[index] < payloads.len()
                &&& payloads[self.pcm.oamd_indices@[index] as int].parsed is Oamd
            }
    }

    /// The JOC payload that the objects were rebuilt by.
    pub fn joc(&self) -> (joc: &JocPayload<G>)
        requires
            self.wf(),
        ensures
            *joc == joc_at(self.info.payloads@, self.pcm.joc_index as int),
    {
        match &self.info.payloads[self.pcm.joc_index].parsed {
            ParsedEmdfPayloadData::Joc(joc) => joc,
            _ => vstd::pervasive::unreached(),
        }
    }

    /// The object metadata payloads and their sample offsets, in order.
    pub fn oamd_payloads(&self) -> (list: Vec<(&O, Option<u16>)>)
        requires
            self.wf(),
        ensures
            list@.len() == self.pcm.oamd_indices@.len(),
            forall|index: int|
                0 <= index < list@.len() ==> {
                    let payload = self.info.payloads@[self.pcm.oamd_indices@[index] as int];
                    &&& payload.parsed == ParsedEmdfPayloadData::<G, O>::Oamd(
                        *(#[trigger] list@[index]).0,
                    )
                    &&& list@[index].1 == payload.sample_offset
                },
    {
        let mut list: Vec<(&O, Option<u16>)> = Vec::new();
        let mut index: usize = 0;
        while index < self.pcm.oamd_indices.len()
            invariant
                self.wf(),
                index <= self.pcm.oamd_indices@.len(),
                list@.len() == index,
                forall|seen: int|
                    0 <= seen < index ==> {
                        let payload = self.info.payloads@[self.pcm.oamd_indices@[seen] as int];
                        &&& payload.parsed == ParsedEmdfPayloadData::<G, O>::Oamd(
                            *(#[trigger] list@[seen]).0,
                        )
                        &&& list@[seen].1 == payload.sample_offset
                    },
            decreases self.pcm.oamd_indices.len() - index,
        {
            let place: usize = self.pcm.oamd_indices[index];
            let payload: &EmdfPayload<G, O> = &self.info.payloads[place];
            if let ParsedEmdfPayloadData::Oamd(oamd) = &payload.parsed {
                list.push((oamd, payload.sample_offset));
            }
            index = index + 1;
        }
        list
    }
}

/// Stateful decoder for object audio.
///
/// `history` is the cross-frame state of reading and decoding units, of which
/// `fresh` gives one that has seen nothing.
#[derive(Debug)]
pub struct ObjectPcmDecoder<S, H, F> {
    pub frames_seen: u64,
    pub history: H,
    pub joc_state: JocObjectDecoderState<S>,
    pub core_delay: CoreAlignmentDelay<S>,
    /// The undelayed core that the most recent objects were rebuilt from.
    pub joc_input_core: Option<CorePcmFrame<S>>,
    /// Sequence counter of the most recent JOC payload.
    pub last_sequence: Option<u16>,
    /// A presentation went by without JOC since then.
    pub gap: bool,
    pub debug_log_level: Level,
    pub fresh: F,
}

/// Whether a JOC payload with this counter does not continue the sequence: it
/// does not follow the last counter, or a presentation went by without JOC.
pub open spec fn splices<S, H, F>(decoder: ObjectPcmDecoder<S, H, F>, counter: u16) -> bool {
    ||| decoder.gap
    ||| decoder.last_sequence matches Some(last) && counter as int != (last + 1)
        % JOC_SEQUENCE_LENGTH as int
}

/// A presentation without JOC was noted.
pub open spec fn gap_noted<S, H, F>(
    before: ObjectPcmDecoder<S, H, F>,
    after: ObjectPcmDecoder<S, H, F>,
) -> bool {
    after == (ObjectPcmDecoder { gap: true, ..before })
}

/// Places from `index` on of the object metadata payloads.
pub open spec fn oamd_places<G, O>(payloads: Seq<EmdfPayload<G, O>>, index: int) -> Seq<int>
    decreases payloads.len() - index,
{
    if index >= payloads.len() {
        Seq::empty()
    } else if payloads[index].parsed is Oamd {
        seq![index] + oamd_places(payloads, index + 1)
    } else {
        oamd_places(payloads, index + 1)
    }
}

/// `after` is `before` once `core`, which a JOC payload with this counter goes
/// with, has been taken in: a core of another shape starts the rebuilding cold.
pub open spec fn core_taken<S: Copy, H, F>(
    before: ObjectPcmDecoder<S, H, F>,
    after: ObjectPcmDecoder<S, H, F>,
    core: CorePcmFrame<S>,
    counter: u16,
) -> bool {
    &&& after == (ObjectPcmDecoder {
        joc_state: after.joc_state,
        last_sequence: Some(counter),
        gap: false,
        ..before
    })
    &&& if delay_fits(before.core_delay@, core@) {
        after.joc_state == before.joc_state
    } else {
        after.joc_state.cold() && after.joc_state.silence == before.joc_state.silence
    }
}

/// `after` is `before` without any history.
pub open spec fn history_cleared<S: Copy, H, F: Fn() -> H>(
    before: ObjectPcmDecoder<S, H, F>,
    after: ObjectPcmDecoder<S, H, F>,
) -> bool {
    &&& after.cold()
    &&& after.frames_seen == before.frames_seen
    &&& after.debug_log_level == before.debug_log_level
    &&& after.fresh == before.fresh
    &&& after.core_delay.silence == before.core_delay.silence
    &&& after.joc_state.silence == before.joc_state.silence
}

/// What a unit with these syntax elements starts, where `core` is what its core
/// decodes to, from decoder state `before`.
pub open spec fn unit_started<S: Copy, G, O, H, F: Fn() -> H>(
    before: ObjectPcmDecoder<S, H, F>,
    after: ObjectPcmDecoder<S, H, F>,
    info: AccessUnitInfo<G, O>,
    joc_index: int,
    core: Result<CorePcmFrame<S>, ParseError>,
    result: Result<Option<ObjectStart<S, G, O>>, ParseError>,
) -> bool {
    match core {
        Err(reason) => {
            &&& result matches Err(error) && error == reason
            &&& history_cleared(before, after)
        },
        Ok(pcm) => {
            &&& result matches Ok(Some(start))
            &&& start.info == info
            &&& start.joc_index == joc_index
            &&& start.core == pcm
            &&& core_taken(before, after, pcm, joc_at(info.payloads@, joc_index).sequence_counter)
        },
    }
}

/// What reading the syntax of a unit once comes to, and what it does to the
/// decoder: reading goes on with the history that is there.
pub open spec fn unit_read<S: Copy, G, O, H, F: Fn() -> H, I>(
    before: ObjectPcmDecoder<S, H, F>,
    after: ObjectPcmDecoder<S, H, F>,
    access_unit: &[u8],
    inspect: I,
    result: Result<Option<(AccessUnitInfo<G, O>, usize)>, ParseError>,
) -> bool where I: Fn(&[u8], Level, H) -> (H, Result<AccessUnitInfo<G, O>, ParseError>) {
    exists|read: H, found: Result<AccessUnitInfo<G, O>, ParseError>|
        {
            &&& #[trigger] inspect.ensures(
                (access_unit, before.debug_log_level, before.history),
                (read, found),
            )
            &&& match found {
                Err(reason) => {
                    &&& result matches Err(error) && error == reason
                    &&& history_cleared(before, after)
                },
                Ok(info) => match size_error(access_unit@.len(), info.frame_size) {
                    Some(reason) => {
                        &&& result matches Err(error) && error == reason
                        &&& history_cleared(before, after)
                    },
                    None => {
                        &&& after == (ObjectPcmDecoder { history: read, ..before })
                        &&& match first_joc(info.payloads@, 0) {
                            None => result matches Ok(None),
                            Some(index) => {
                                &&& result matches Ok(Some(settled))
                                &&& settled.0 == info
                                &&& settled.1 == index
                            },
                        }
                    },
                },
            }
        }
}

/// Whether a reading of a unit shows a JOC payload that does not continue the
/// sequence.
pub open spec fn shows_splice<S, G, O, H, F>(
    decoder: ObjectPcmDecoder<S, H, F>,
    access_unit: &[u8],
    found: Result<AccessUnitInfo<G, O>, ParseError>,
) -> bool {
    &&& found matches Ok(info)
    &&& size_error(access_unit@.len(), info.frame_size) is None
    &&& first_joc(info.payloads@, 0) matches Some(index)
    &&& splices(decoder, joc_at(info.payloads@, index).sequence_counter)
}

/// What reading the syntax of a unit comes to, and what it does to the decoder.
///
/// A unit whose JOC payload does not continue the sequence starts cold: all
/// history is cleared and the syntax is read once more, without any.
pub open spec fn unit_settled<S: Copy, G, O, H, F: Fn() -> H, I>(
    before: ObjectPcmDecoder<S, H, F>,
    after: ObjectPcmDecoder<S, H, F>,
    access_unit: &[u8],
    inspect: I,
    result: Result<Option<(AccessUnitInfo<G, O>, usize)>, ParseError>,
) -> bool where I: Fn(&[u8], Level, H) -> (H, Result<AccessUnitInfo<G, O>, ParseError>) {
    exists|read: H, found: Result<AccessUnitInfo<G, O>, ParseError>|
        {
            &&& #[trigger] inspect.ensures(
                (access_unit, before.debug_log_level, before.history),
                (read, found),
            )
            &&& if shows_splice(before, access_unit, found) {
                exists|cleared: ObjectPcmDecoder<S, H, F>|
                    {
                        &&& #[trigger] history_cleared(before, cleared)
                        &&& unit_read(cleared, after, access_unit, inspect, result)
                    }
            } else {
                match found {
                    Err(reason) => {
                        &&& result matches Err(error) && error == reason
                        &&& history_cleared(before, after)
                    },
                    Ok(info) => match size_error(access_unit@.len(), info.frame_size) {
                        Some(reason) => {
                            &&& result matches Err(error) && error == reason
                            &&& history_cleared(before, after)
                        },
                        None => {
                            &&& after == (ObjectPcmDecoder { history: read, ..before })
                            &&& match first_joc(info.payloads@, 0) {
                                None => result matches Ok(None),
                                Some(index) => {
                                    &&& result matches Ok(Some(settled))
                                    &&& settled.0 == info
                                    &&& settled.1 == index
                                },
                            }
                        },
                    },
                }
            }
        }
}

/// What taking a unit in does to a decoder and returns. `core` says what the
/// unit's core may decode to, from one history to another.
pub open spec fn objects_begun<S: Copy, G, O, H, F: Fn() -> H, I>(
    before: ObjectPcmDecoder<S, H, F>,
    after: ObjectPcmDecoder<S, H, F>,
    access_unit: &[u8],
    inspect: I,
    core: spec_fn(AccessUnitInfo<G, O>, H, H, Result<CorePcmFrame<S>, ParseError>) -> bool,
    result: Result<Option<ObjectStart<S, G, O>>, ParseError>,
) -> bool where I: Fn(&[u8], Level, H) -> (H, Result<AccessUnitInfo<G, O>, ParseError>) {
    exists|
        middle: ObjectPcmDecoder<S, H, F>,
        settled: Result<Option<(AccessUnitInfo<G, O>, usize)>, ParseError>,
    |
        {
            &&& #[trigger] unit_settled(before, middle, access_unit, inspect, settled)
            &&& match settled {
                Err(reason) => {
                    &&& result matches Err(error) && error == reason
                    &&& after == middle
                },
                Ok(None) => result matches Ok(None) && after == middle,
                Ok(Some((info, index))) => exists|
                    left: H,
                    decoded: Result<CorePcmFrame<S>, ParseError>,
                |
                    {
                        &&& #[trigger] core(info, middle.history, left, decoded)
                        &&& unit_started(
                            ObjectPcmDecoder { history: left, ..middle },
                            after,
                            info,
                            index as int,
                            decoded,
                            result,
                        )
                    },
            }
        }
}

/// What the rebuilt objects of a unit do to a decoder, and what is returned:
/// the core is held back to meet them, now that they have been rebuilt from it.
pub open spec fn unit_finished<S: Copy, G, O, H, F: Fn() -> H>(
    before: ObjectPcmDecoder<S, H, F>,
    after: ObjectPcmDecoder<S, H, F>,
    start: ObjectStart<S, G, O>,
    objects: Result<Vec<Vec<S>>, ParseError>,
    result: Result<ObjectPcmPushResult<S, G, O>, ParseError>,
) -> bool {
    match objects {
        Err(reason) => {
            &&& result matches Err(error) && error == reason
            &&& history_cleared(before, after)
        },
        Ok(channels) => {
            let payloads = start.info.payloads@;
            let joc = joc_at(payloads, start.joc_index as int);
            let places = oamd_places(payloads, 0);
            &&& result matches Ok(push)
            &&& push.wf()
            &&& push.frames_seen == before.frames_seen + 1
            &&& push.info == start.info
            &&& push.pcm.core@ == delayed_core(before.core_delay@, start.core@)
            &&& push.pcm.object_channels == channels
            &&& push.pcm.joc_index == start.joc_index
            &&& push.pcm.object_active@.len() == joc.objects@.len()
            &&& forall|index: int|
                0 <= index < joc.objects@.len() ==> #[trigger] push.pcm.object_active@[index]
                    == joc.objects@[index].active
            &&& push.pcm.oamd_indices@.len() == places.len()
            &&& forall|index: int|
                0 <= index < places.len() ==> #[trigger] push.pcm.oamd_indices@[index]
                    == places[index]
            &&& after == (ObjectPcmDecoder {
                frames_seen: push.frames_seen,
                core_delay: after.core_delay,
                joc_input_core: Some(start.core),
                ..before
            })
            &&& after.core_delay@ == delay_after(before.core_delay@, start.core@)
        },
    }
}

/// What pushing a unit does to a decoder and returns, where `core` says what
/// the unit's core may decode to.
pub open spec fn objects_pushed<S: Copy, G, O, H, F: Fn() -> H, B, I, A, M, Y>(
    before: ObjectPcmDecoder<S, H, F>,
    after: ObjectPcmDecoder<S, H, F>,
    access_unit: &[u8],
    inspect: I,
    core: spec_fn(AccessUnitInfo<G, O>, H, H, Result<CorePcmFrame<S>, ParseError>) -> bool,
    analyse: A,
    mix: M,
    gather: Y,
    result: Result<Option<ObjectPcmPushResult<S, G, O>>, ParseError>,
) -> bool where
    I: Fn(&[u8], Level, H) -> (H, Result<AccessUnitInfo<G, O>, ParseError>),
    A: Fn(&[S]) -> B,
    M: Fn(&Vec<B>, &ObjectMix, usize) -> [S; 128],
    Y: Fn(&[S], &G) -> [S; 64],
 {
    exists|
        middle: ObjectPcmDecoder<S, H, F>,
        started: Result<Option<ObjectStart<S, G, O>>, ParseError>,
    |
        {
            &&& #[trigger] objects_begun(before, middle, access_unit, inspect, core, started)
            &&& match started {
                Err(reason) => {
                    &&& result matches Err(error) && error == reason
                    &&& after == middle
                },
                Ok(None) => result matches Ok(None) && after == middle,
                Ok(Some(start)) => unit_rebuilt(middle, after, start, analyse, mix, gather, result),
            }
        }
}

/// What rebuilding the objects of a unit does to a decoder and returns.
pub open spec fn unit_rebuilt<S: Copy, G, O, H, F: Fn() -> H, B, A, M, Y>(
    before: ObjectPcmDecoder<S, H, F>,
    after: ObjectPcmDecoder<S, H, F>,
    start: ObjectStart<S, G, O>,
    analyse: A,
    mix: M,
    gather: Y,
    result: Result<Option<ObjectPcmPushResult<S, G, O>>, ParseError>,
) -> bool where
    A: Fn(&[S]) -> B,
    M: Fn(&Vec<B>, &ObjectMix, usize) -> [S; 128],
    Y: Fn(&[S], &G) -> [S; 64],
 {
    exists|rebuilt: JocObjectDecoderState<S>, objects: Result<Vec<Vec<S>>, ParseError>|
        {
            &&& #[trigger] frame_decoded(
                before.joc_state,
                rebuilt,
                start.core@,
                joc_at(start.info.payloads@, start.joc_index as int),
                analyse,
                mix,
                gather,
                sound_result(objects),
            )
            &&& exists|finished: Result<ObjectPcmPushResult<S, G, O>, ParseError>|
                {
                    &&& #[trigger] unit_finished(
                        ObjectPcmDecoder { joc_state: rebuilt, ..before },
                        after,
                        start,
                        objects,
                        finished,
                    )
                    &&& match finished {
                        Ok(push) => result matches Ok(Some(found)) && found == push,
                        Err(reason) => result matches Err(error) && error == reason,
                    }
                }
        }
}

/// Every unit that `inspect` and `core` may give can be rebuilt.
pub open spec fn units_fit<S: Copy, G, O, H, I>(
    access_unit: &[u8],
    level: Level,
    inspect: I,
    core: spec_fn(AccessUnitInfo<G, O>, H, H, Result<CorePcmFrame<S>, ParseError>) -> bool,
) -> bool where I: Fn(&[u8], Level, H) -> (H, Result<AccessUnitInfo<G, O>, ParseError>) {
    forall|
        history: H,
        read: H,
        info: AccessUnitInfo<G, O>,
        index: int,
        left: H,
        pcm: CorePcmFrame<S>,
    |
        {
            &&& #[trigger] inspect.ensures((access_unit, level, history), (read, Ok(info)))
            &&& #[trigger] core(info, read, left, Ok(pcm))
            &&& first_joc(info.payloads@, 0) == Some(index)
        } ==> frame_fits(pcm@, #[trigger] joc_at(info.payloads@, index))
}

impl<S: Copy, H, F: Fn() -> H> ObjectPcmDecoder<S, H, F> {
    /// The banks of the rebuilding are sound, and a history that has seen
    /// nothing can be had.
    pub open spec fn wf(&self) -> bool {
        &&& self.joc_state.banks_wf()
        &&& self.fresh.requires(())
    }

    /// No cross-frame history is held.
    pub open spec fn cold(&self) -> bool {
        &&& self.joc_state.cold()
        &&& self.core_delay@ == empty_delay(self.core_delay.silence)
        &&& self.joc_input_core is None
        &&& self.last_sequence is None
        &&& !self.gap
        &&& self.fresh.ensures((), self.history)
    }

    /// A fresh decoder.
    pub fn new(silence: S, fresh: F) -> (decoder: Self)
        requires
            fresh.requires(()),
        ensures
            decoder.wf(),
            decoder.cold(),
            decoder.frames_seen == 0,
            decoder.debug_log_level == Level::Debug,
            decoder.core_delay.silence == silence,
            decoder.joc_state.silence == silence,
            decoder.fresh == fresh,
    {
        let history: H = fresh();
        ObjectPcmDecoder {
            frames_seen: 0,
            history,
            joc_state: JocObjectDecoderState::new(silence),
            core_delay: CoreAlignmentDelay::new(silence),
            joc_input_core: None,
            last_sequence: None,
            gap: false,
            debug_log_level: Level::Debug,
            fresh,
        }
    }

    /// Resets all cross-frame decode state.
    pub fn reset(&mut self)
        requires
            old(self).wf(),
        ensures
            final(self).wf(),
            final(self).frames_seen == 0,
            history_cleared(ObjectPcmDecoder { frames_seen: 0, ..*old(self) }, *final(self)),
    {
        self.frames_seen = 0;
        self.reset_decode_state();
    }

    /// Resets the cross-frame state without touching the count of frames.
    pub fn reset_decode_state(&mut self)
        requires
            old(self).wf(),
        ensures
            final(self).wf(),
            history_cleared(*old(self), *final(self)),
    {
        let fresh: &F = &self.fresh;
        let history: H = fresh();
        self.history = history;
        self.joc_state.reset();
        self.core_delay.reset();
        self.joc_input_core = None;
        self.last_sequence = None;
        self.gap = false;
    }

    /// Number of access units accepted since the last reset.
    pub fn frames_seen(&self) -> (count: u64)
        ensures
            count == self.frames_seen,
    {
        self.frames_seen
    }

    /// The core that the most recent frame's objects were rebuilt from, before
    /// the alignment delay. `None` before the first object frame, and after a
    /// reset.
    pub fn joc_input_core(&self) -> (core: Option<&CorePcmFrame<S>>)
        ensures
            core is Some == self.joc_input_core is Some,
            core matches Some(found) ==> *found == self.joc_input_core->0,
    {
        self.joc_input_core.as_ref()
    }

    /// Hands that core over.
    pub fn take_joc_input_core(&mut self) -> (core: Option<CorePcmFrame<S>>)
        ensures
            core == old(self).joc_input_core,
            *final(self) == (ObjectPcmDecoder { joc_input_core: None, ..*old(self) }),
    {
        self.joc_input_core.take()
    }

    /// Sets the level of metadata diagnostics for this decoder.
    pub fn set_debug_log_level(&mut self, level: Level)
        ensures
            *final(self) == (ObjectPcmDecoder { debug_log_level: level, ..*old(self) }),
    {
        self.debug_log_level = level;
    }

    /// A presentation went by without JOC. The sequence counter only advances
    /// on frames with a payload, so the next one would otherwise go on from the
    /// matrices of whatever played before the gap.
    pub fn note_non_joc_presentation(&mut self)
        ensures
            gap_noted(*old(self), *final(self)),
    {
        self.gap = true;
    }

    /// Starts the rebuilding cold when the core changes shape.
    ///
    /// A change of layout, LFE presence or sample rate invalidates all of the
    /// cross-frame history at once. The alignment delay notices on its own, but
    /// only after the objects have been rebuilt.
    pub fn reset_history_if_reconfigured(&mut self, core: &CorePcmFrame<S>)
        requires
            old(self).wf(),
        ensures
            final(self).wf(),
            *final(self) == (ObjectPcmDecoder { joc_state: final(self).joc_state, ..*old(self) }),
            if delay_fits(old(self).core_delay@, core@) {
                final(self).joc_state == old(self).joc_state
            } else {
                final(self).joc_state.cold() && final(self).joc_state.silence == old(
                    self,
                ).joc_state.silence
            },
    {
        if !self.core_delay.belongs_to(core) {
            self.joc_state.reset();
        }
    }

    /// Takes a unit's core in.
    fn take_core<G, O>(
        &mut self,
        info: AccessUnitInfo<G, O>,
        joc_index: usize,
        core: Result<CorePcmFrame<S>, ParseError>,
    ) -> (result: Result<Option<ObjectStart<S, G, O>>, ParseError>)
        requires
            old(self).wf(),
            joc_index < info.payloads@.len(),
            info.payloads@[joc_index as int].parsed is Joc,
        ensures
            final(self).wf(),
            unit_started(*old(self), *final(self), info, joc_index as int, core, result),
    {
        let core: CorePcmFrame<S> = match core {
            Ok(core) => core,
            Err(error) => {
                self.reset_decode_state();
                return Err(error);
            },
        };
        self.reset_history_if_reconfigured(&core);
        if let ParsedEmdfPayloadData::Joc(joc) = &info.payloads[joc_index].parsed {
            self.last_sequence = Some(joc.sequence_counter);
        }
        self.gap = false;
        Ok(Some(ObjectStart { info, joc_index, core }))
    }

    /// Reads the syntax of a unit with the history that is there.
    fn read_unit<G, O, I>(&mut self, access_unit: &[u8], inspect: &I) -> (result: Result<
        AccessUnitInfo<G, O>,
        ParseError,
    >) where I: Fn(&[u8], Level, H) -> (H, Result<AccessUnitInfo<G, O>, ParseError>)
        requires
            old(self).wf(),
            forall|history: H|
                #[trigger] inspect.requires((access_unit, old(self).debug_log_level, history)),
        ensures
            final(self).wf(),
            *final(self) == (ObjectPcmDecoder { history: final(self).history, ..*old(self) }),
            inspect.ensures(
                (access_unit, old(self).debug_log_level, old(self).history),
                (final(self).history, result),
            ),
    {
        let fresh: &F = &self.fresh;
        let mut history: H = fresh();
        core::mem::swap(&mut self.history, &mut history);
        let (read, found) = inspect(access_unit, self.debug_log_level, history);
        self.history = read;
        found
    }

    /// Reads the syntax of a unit, once more without history where its JOC
    /// payload does not continue the sequence.
    fn settle<G, O, I>(&mut self, access_unit: &[u8], inspect: &I) -> (result: Result<
        Option<(AccessUnitInfo<G, O>, usize)>,
        ParseError,
    >) where I: Fn(&[u8], Level, H) -> (H, Result<AccessUnitInfo<G, O>, ParseError>)
        requires
            old(self).wf(),
            forall|history: H|
                #[trigger] inspect.requires((access_unit, old(self).debug_log_level, history)),
        ensures
            final(self).wf(),
            unit_settled(*old(self), *final(self), access_unit, *inspect, result),
            result matches Ok(Some(settled)) ==> {
                &&& settled.1 < settled.0.payloads@.len()
                &&& settled.0.payloads@[settled.1 as int].parsed is Joc
            },
    {
        let first: Result<AccessUnitInfo<G, O>, ParseError> = self.read_unit(access_unit, inspect);
        let info: AccessUnitInfo<G, O> = match first {
            Ok(info) => info,
            Err(error) => {
                self.reset_decode_state();
                return Err(error);
            },
        };
        if let Err(error) = check_size(access_unit.len(), info.frame_size) {
            self.reset_decode_state();
            return Err(error);
        }
        let (index, counter) = match info.first_joc_index() {
            None => {
                return Ok(None);
            },
            Some(index) => match &info.payloads[index].parsed {
                ParsedEmdfPayloadData::Joc(joc) => (index, joc.sequence_counter),
                _ => {
                    return Ok(None);
                },
            },
        };
        let follows: bool = match self.last_sequence {
            Some(last) => counter as u32 == (last as u32 + 1) % JOC_SEQUENCE_LENGTH as u32,
            None => true,
        };
        if !self.gap && follows {
            return Ok(Some((info, index)));
        }
        self.reset_decode_state();
        let ghost cleared = *self;
        assert(history_cleared(*old(self), cleared));
        let second: Result<AccessUnitInfo<G, O>, ParseError> = self.read_unit(access_unit, inspect);
        match second {
            Ok(info) => {
                if let Err(error) = check_size(access_unit.len(), info.frame_size) {
                    self.reset_decode_state();
                    return Err(error);
                }
                match info.first_joc_index() {
                    None => Ok(None),
                    Some(index) => Ok(Some((info, index))),
                }
            },
            Err(error) => {
                self.reset_decode_state();
                Err(error)
            },
        }
    }

    /// Takes one complete access unit in, whose objects are to be rebuilt from
    /// its own core.
    fn begin_access_unit<G, O, I, D>(
        &mut self,
        access_unit: &[u8],
        inspect: &I,
        decode: D,
    ) -> (result: Result<Option<ObjectStart<S, G, O>>, ParseError>) where
        I: Fn(&[u8], Level, H) -> (H, Result<AccessUnitInfo<G, O>, ParseError>),
        D: FnOnce(&[u8], &AccessUnitInfo<G, O>, H) -> (H, Result<CorePcmFrame<S>, ParseError>),

        requires
            old(self).wf(),
            forall|history: H|
                #[trigger] inspect.requires((access_unit, old(self).debug_log_level, history)),
            forall|info: AccessUnitInfo<G, O>, history: H| #[trigger]
                decode.requires((access_unit, &info, history)),
        ensures
            final(self).wf(),
            objects_begun(
                *old(self),
                *final(self),
                access_unit,
                *inspect,
                |
                    info: AccessUnitInfo<G, O>,
                    read: H,
                    left: H,
                    decoded: Result<CorePcmFrame<S>, ParseError>,
                | decode.ensures((access_unit, &info, read), (left, decoded)),
                result,
            ),
    {
        let ghost core = |
            info: AccessUnitInfo<G, O>,
            read: H,
            left: H,
            decoded: Result<CorePcmFrame<S>, ParseError>,
        | decode.ensures((access_unit, &info, read), (left, decoded));
        let settled = self.settle(access_unit, inspect);
        let ghost middle = *self;
        let ghost settled_seen = settled;
        assert(unit_settled(*old(self), middle, access_unit, *inspect, settled_seen));
        match settled {
            Ok(Some((info, index))) => {
                let fresh: &F = &self.fresh;
                let mut history: H = fresh();
                core::mem::swap(&mut self.history, &mut history);
                let (left, decoded) = decode(access_unit, &info, history);
                assert(core(info, middle.history, left, decoded));
                self.history = left;
                self.take_core(info, index, decoded)
            },
            Ok(None) => Ok(None),
            Err(error) => Err(error),
        }
    }

    /// Takes a dependent access unit in, whose objects are to be rebuilt from a
    /// core that was decoded elsewhere.
    fn begin_access_unit_with_core<G, O, I>(
        &mut self,
        access_unit: &[u8],
        inspect: &I,
        core: CorePcmFrame<S>,
    ) -> (result: Result<Option<ObjectStart<S, G, O>>, ParseError>) where
        I: Fn(&[u8], Level, H) -> (H, Result<AccessUnitInfo<G, O>, ParseError>),

        requires
            old(self).wf(),
            forall|history: H|
                #[trigger] inspect.requires((access_unit, old(self).debug_log_level, history)),
        ensures
            final(self).wf(),
            objects_begun(
                *old(self),
                *final(self),
                access_unit,
                *inspect,
                |
                    info: AccessUnitInfo<G, O>,
                    read: H,
                    left: H,
                    decoded: Result<CorePcmFrame<S>, ParseError>,
                | left == read && decoded == Ok::<CorePcmFrame<S>, ParseError>(core),
                result,
            ),
    {
        let ghost given = |
            info: AccessUnitInfo<G, O>,
            read: H,
            left: H,
            decoded: Result<CorePcmFrame<S>, ParseError>,
        | left == read && decoded == Ok::<CorePcmFrame<S>, ParseError>(core);
        let settled = self.settle(access_unit, inspect);
        let ghost middle = *self;
        let ghost settled_seen = settled;
        assert(unit_settled(*old(self), middle, access_unit, *inspect, settled_seen));
        match settled {
            Ok(Some((info, index))) => {
                let decoded: Result<CorePcmFrame<S>, ParseError> = Ok(core);
                assert(given(info, middle.history, middle.history, decoded));
                self.take_core(info, index, decoded)
            },
            Ok(None) => Ok(None),
            Err(error) => Err(error),
        }
    }

    /// Takes the rebuilt objects of a unit in: the core is held back to meet
    /// them, now that they have been rebuilt from it. On an error all history
    /// is cleared.
    fn finish_access_unit<G, O>(
        &mut self,
        start: ObjectStart<S, G, O>,
        objects: Result<Vec<Vec<S>>, ParseError>,
    ) -> (result: Result<ObjectPcmPushResult<S, G, O>, ParseError>)
        requires
            old(self).wf(),
            old(self).frames_seen < u64::MAX,
            start.joc_index < start.info.payloads@.len(),
            start.info.payloads@[start.joc_index as int].parsed is Joc,
        ensures
            final(self).wf(),
            unit_finished(*old(self), *final(self), start, objects, result),
    {
        let object_channels: Vec<Vec<S>> = match objects {
            Ok(channels) => channels,
            Err(error) => {
                self.reset_decode_state();
                return Err(error);
            },
        };
        let core: CorePcmFrame<S> = self.core_delay.delayed(&start.core);
        let mut object_active: Vec<bool> = Vec::new();
        if let ParsedEmdfPayloadData::Joc(joc) = &start.info.payloads[start.joc_index].parsed {
            let mut index: usize = 0;
            while index < joc.objects.len()
                invariant
                    index <= joc.objects@.len(),
                    object_active@.len() == index,
                    forall|seen: int|
                        0 <= seen < index ==> #[trigger] object_active@[seen]
                            == joc.objects@[seen].active,
                decreases joc.objects.len() - index,
            {
                object_active.push(joc.objects[index].active);
                index = index + 1;
            }
        }
        let oamd_indices: Vec<usize> = oamd_list(&start.info);
        self.joc_input_core = Some(start.core);
        self.frames_seen = self.frames_seen + 1;
        Ok(
            ObjectPcmPushResult {
                frames_seen: self.frames_seen,
                info: start.info,
                pcm: ObjectPcmFrame {
                    core,
                    object_channels,
                    object_active,
                    joc_index: start.joc_index,
                    oamd_indices,
                },
            },
        )
    }
}

impl<S: Copy, H, F: Fn() -> H> ObjectPcmDecoder<S, H, F> {
    /// How the objects of the most recent frame were mixed.
    pub fn last_joc_matrices(&self) -> (mixes: &Vec<ObjectMix>)
        ensures
            *mixes == self.joc_state.last_frame,
    {
        self.joc_state.last_frame_matrices()
    }

    /// Rebuilds the objects of a unit that was taken in.
    fn rebuild<G, O, B, A, M, Y>(
        &mut self,
        start: ObjectStart<S, G, O>,
        analyse: &A,
        mix: &M,
        gather: &Y,
    ) -> (result: Result<Option<ObjectPcmPushResult<S, G, O>>, ParseError>) where
        A: Fn(&[S]) -> B,
        M: Fn(&Vec<B>, &ObjectMix, usize) -> [S; 128],
        Y: Fn(&[S], &G) -> [S; 64],

        requires
            old(self).wf(),
            old(self).frames_seen < u64::MAX,
            start.joc_index < start.info.payloads@.len(),
            start.info.payloads@[start.joc_index as int].parsed is Joc,
            frame_fits(start.core@, joc_at(start.info.payloads@, start.joc_index as int)),
            forall|window: &[S]| #[trigger] analyse.requires((window,)),
            forall|analysis: &Vec<B>, mixed: &ObjectMix, place: usize| #[trigger]
                mix.requires((analysis, mixed, place)),
            forall|window: &[S], gain: &G| #[trigger] gather.requires((window, gain)),
        ensures
            final(self).wf(),
            unit_rebuilt(*old(self), *final(self), start, *analyse, *mix, *gather, result),
    {
        let objects: Result<Vec<Vec<S>>, ParseError> = match &start.info.payloads[start.joc_index].parsed {
            ParsedEmdfPayloadData::Joc(joc) => self.joc_state.decode_frame(
                &start.core,
                joc,
                analyse,
                mix,
                gather,
            ),
            _ => vstd::pervasive::unreached(),
        };
        let ghost rebuilt = self.joc_state;
        let ghost objects_seen = objects;
        let ghost start_seen = start;
        assert(frame_decoded(
            old(self).joc_state,
            rebuilt,
            start.core@,
            joc_at(start.info.payloads@, start.joc_index as int),
            *analyse,
            *mix,
            *gather,
            sound_result(objects_seen),
        ));
        let finished: Result<ObjectPcmPushResult<S, G, O>, ParseError> = self.finish_access_unit(
            start,
            objects,
        );
        assert(unit_finished(
            ObjectPcmDecoder { joc_state: rebuilt, ..*old(self) },
            *self,
            start_seen,
            objects_seen,
            finished,
        ));
        match finished {
            Ok(push) => Ok(Some(push)),
            Err(error) => Err(error),
        }
    }

    /// Decodes one complete access unit into object audio. Returns `Ok(None)`
    /// when the unit carries no JOC payload.
    ///
    /// `inspect` reads the unit's syntax at the given diagnostic level, and
    /// `decode` decodes its core; both go on with the history they are given.
    /// What is computed with samples is handed in too: see
    /// [`crate::eac3::synthesis`]. On an error all history is cleared.
    pub fn push_access_unit<G, O, B, I, D, A, M, Y>(
        &mut self,
        access_unit: &[u8],
        inspect: &I,
        decode: D,
        analyse: &A,
        mix: &M,
        gather: &Y,
    ) -> (result: Result<Option<ObjectPcmPushResult<S, G, O>>, ParseError>) where
        I: Fn(&[u8], Level, H) -> (H, Result<AccessUnitInfo<G, O>, ParseError>),
        D: FnOnce(&[u8], &AccessUnitInfo<G, O>, H) -> (H, Result<CorePcmFrame<S>, ParseError>),
        A: Fn(&[S]) -> B,
        M: Fn(&Vec<B>, &ObjectMix, usize) -> [S; 128],
        Y: Fn(&[S], &G) -> [S; 64],

        requires
            old(self).wf(),
            old(self).frames_seen < u64::MAX,
            forall|history: H|
                #[trigger] inspect.requires((access_unit, old(self).debug_log_level, history)),
            forall|info: AccessUnitInfo<G, O>, history: H| #[trigger]
                decode.requires((access_unit, &info, history)),
            forall|window: &[S]| #[trigger] analyse.requires((window,)),
            forall|analysis: &Vec<B>, mixed: &ObjectMix, place: usize| #[trigger]
                mix.requires((analysis, mixed, place)),
            forall|window: &[S], gain: &G| #[trigger] gather.requires((window, gain)),
            units_fit(
                access_unit,
                old(self).debug_log_level,
                *inspect,
                |
                    info: AccessUnitInfo<G, O>,
                    read: H,
                    left: H,
                    decoded: Result<CorePcmFrame<S>, ParseError>,
                | decode.ensures((access_unit, &info, read), (left, decoded)),
            ),
        ensures
            final(self).wf(),
            objects_pushed(
                *old(self),
                *final(self),
                access_unit,
                *inspect,
                |
                    info: AccessUnitInfo<G, O>,
                    read: H,
                    left: H,
                    decoded: Result<CorePcmFrame<S>, ParseError>,
                | decode.ensures((access_unit, &info, read), (left, decoded)),
                *analyse,
                *mix,
                *gather,
                result,
            ),
    {
        let ghost core = |
            info: AccessUnitInfo<G, O>,
            read: H,
            left: H,
            decoded: Result<CorePcmFrame<S>, ParseError>,
        | decode.ensures((access_unit, &info, read), (left, decoded));
        let started = self.begin_access_unit(access_unit, inspect, decode);
        let ghost middle = *self;
        let ghost started_seen = started;
        assert(objects_begun(*old(self), middle, access_unit, *inspect, core, started_seen));
        match started {
            Ok(Some(start)) => {
                proof {
                    lemma_start_fits(*old(self), middle, access_unit, *inspect, core, start);
                }
                self.rebuild(start, analyse, mix, gather)
            },
            Ok(None) => Ok(None),
            Err(error) => Err(error),
        }
    }

    /// Decodes object audio from a dependent access unit, with a core that was
    /// decoded elsewhere. All else is as in
    /// [`ObjectPcmDecoder::push_access_unit`].
    pub fn push_access_unit_with_core<G, O, B, I, A, M, Y>(
        &mut self,
        access_unit: &[u8],
        inspect: &I,
        core: CorePcmFrame<S>,
        analyse: &A,
        mix: &M,
        gather: &Y,
    ) -> (result: Result<Option<ObjectPcmPushResult<S, G, O>>, ParseError>) where
        I: Fn(&[u8], Level, H) -> (H, Result<AccessUnitInfo<G, O>, ParseError>),
        A: Fn(&[S]) -> B,
        M: Fn(&Vec<B>, &ObjectMix, usize) -> [S; 128],
        Y: Fn(&[S], &G) -> [S; 64],

        requires
            old(self).wf(),
            old(self).frames_seen < u64::MAX,
            forall|history: H|
                #[trigger] inspect.requires((access_unit, old(self).debug_log_level, history)),
            forall|window: &[S]| #[trigger] analyse.requires((window,)),
            forall|analysis: &Vec<B>, mixed: &ObjectMix, place: usize| #[trigger]
                mix.requires((analysis, mixed, place)),
            forall|window: &[S], gain: &G| #[trigger] gather.requires((window, gain)),
            units_fit(
                access_unit,
                old(self).debug_log_level,
                *inspect,
                |
                    info: AccessUnitInfo<G, O>,
                    read: H,
                    left: H,
                    decoded: Result<CorePcmFrame<S>, ParseError>,
                | left == read && decoded == Ok::<CorePcmFrame<S>, ParseError>(core),
            ),
        ensures
            final(self).wf(),
            objects_pushed(
                *old(self),
                *final(self),
                access_unit,
                *inspect,
                |
                    info: AccessUnitInfo<G, O>,
                    read: H,
                    left: H,
                    decoded: Result<CorePcmFrame<S>, ParseError>,
                | left == read && decoded == Ok::<CorePcmFrame<S>, ParseError>(core),
                *analyse,
                *mix,
                *gather,
                result,
            ),
    {
        let ghost given = |
            info: AccessUnitInfo<G, O>,
            read: H,
            left: H,
            decoded: Result<CorePcmFrame<S>, ParseError>,
        | left == read && decoded == Ok::<CorePcmFrame<S>, ParseError>(core);
        let started = self.begin_access_unit_with_core(access_unit, inspect, core);
        let ghost middle = *self;
        let ghost started_seen = started;
        assert(objects_begun(*old(self), middle, access_unit, *inspect, given, started_seen));
        match started {
            Ok(Some(start)) => {
                proof {
                    lemma_start_fits(*old(self), middle, access_unit, *inspect, given, start);
                }
                self.rebuild(start, analyse, mix, gather)
            },
            Ok(None) => Ok(None),
            Err(error) => Err(error),
        }
    }
}

/// A unit that was taken in can be rebuilt where every unit can.
proof fn lemma_start_fits<S: Copy, G, O, H, F: Fn() -> H, I>(
    before: ObjectPcmDecoder<S, H, F>,
    after: ObjectPcmDecoder<S, H, F>,
    access_unit: &[u8],
    inspect: I,
    core: spec_fn(AccessUnitInfo<G, O>, H, H, Result<CorePcmFrame<S>, ParseError>) -> bool,
    start: ObjectStart<S, G, O>,
) where I: Fn(&[u8], Level, H) -> (H, Result<AccessUnitInfo<G, O>, ParseError>)
    requires
        objects_begun(before, after, access_unit, inspect, core, Ok(Some(start))),
        units_fit(access_unit, before.debug_log_level, inspect, core),
    ensures
        start.joc_index < start.info.payloads@.len(),
        start.info.payloads@[start.joc_index as int].parsed is Joc,
        frame_fits(start.core@, joc_at(start.info.payloads@, start.joc_index as int)),
{
    lemma_first_joc(start.info.payloads@, 0);
    let (middle, settled) = choose|
        middle: ObjectPcmDecoder<S, H, F>,
        settled: Result<Option<(AccessUnitInfo<G, O>, usize)>, ParseError>,
    |
        {
            &&& #[trigger] unit_settled(before, middle, access_unit, inspect, settled)
            &&& match settled {
                Ok(Some((info, index))) => exists|
                    left: H,
                    decoded: Result<CorePcmFrame<S>, ParseError>,
                |
                    {
                        &&& #[trigger] core(info, middle.history, left, decoded)
                        &&& unit_started(
                            ObjectPcmDecoder { history: left, ..middle },
                            after,
                            info,
                            index as int,
                            decoded,
                            Ok(Some(start)),
                        )
                    },
                _ => false,
            }
        };
    if let Ok(Some((info, index))) = settled {
        assert(info == start.info && index == start.joc_index);
        assert(exists|left: H|
            #[trigger] core(start.info, middle.history, left, Ok(start.core)));
        assert(first_joc(start.info.payloads@, 0) == Some(index as int));
        assert(exists|history: H|
            #[trigger] inspect.ensures(
                (access_unit, before.debug_log_level, history),
                (middle.history, Ok(start.info)),
            ));
    }
}

/// Places of the object metadata payloads of a unit.
fn oamd_list<G, O>(info: &AccessUnitInfo<G, O>) -> (places: Vec<usize>)
    ensures
        places@.len() == oamd_places(info.payloads@, 0).len(),
        forall|index: int|
            0 <= index < places@.len() ==> #[trigger] places@[index] == oamd_places(
                info.payloads@,
                0,
            )[index],
        forall|index: int|
            0 <= index < places@.len() ==> {
                &&& #[trigger] places@[index] < info.payloads@.len()
                &&& info.payloads@[places@[index] as int].parsed is Oamd
            },
{
    let mut places: Vec<usize> = Vec::new();
    let mut index: usize = 0;
    let ghost all = oamd_places(info.payloads@, 0);
    let ghost mut rest = all;
    while index < info.payloads.len()
        invariant
            index <= info.payloads@.len(),
            rest == oamd_places(info.payloads@, index as int),
            all.len() == places@.len() + rest.len(),
            forall|seen: int| 0 <= seen < places@.len() ==> #[trigger] places@[seen] == all[seen],
            forall|seen: int|
                0 <= seen < places@.len() ==> {
                    &&& #[trigger] places@[seen] < info.payloads@.len()
                    &&& info.payloads@[places@[seen] as int].parsed is Oamd
                },
            forall|ahead: int|
                0 <= ahead < rest.len() ==> #[trigger] rest[ahead] == all[places@.len() + ahead],
        decreases info.payloads.len() - index,
    {
        let ghost behind = oamd_places(info.payloads@, index + 1);
        if let ParsedEmdfPayloadData::Oamd(_) = &info.payloads[index].parsed {
            proof {
                assert(rest == seq![index as int] + behind);
                assert(rest[0] == index);
                assert forall|ahead: int| 0 <= ahead < behind.len() implies #[trigger] behind[ahead]
                    == all[places@.len() + 1 + ahead] by {
                    assert(rest[ahead + 1] == behind[ahead]);
                }
            }
            places.push(index);
        }
        proof {
            rest = behind;
        }
        index = index + 1;
    }
    places
}

/// A counter cannot follow itself, so a repeated unit is a splice; the one that
/// does follow it is not, unless a presentation without JOC came between.
pub proof fn only_the_next_counter_continues<S, H, F>(decoder: ObjectPcmDecoder<S, H, F>, counter: u16)
    requires
        decoder.last_sequence == Some(counter),
    ensures
        splices(decoder, counter),
        splices(decoder, ((counter + 1) % JOC_SEQUENCE_LENGTH as int) as u16) == decoder.gap,
{
}

/// A spliced frame starts cold: the rebuilding holds no history, the core is
/// delayed as it would be in a new decoder, and the count of frames goes on.
pub proof fn spliced_frames_start_cold<S: Copy, H, F: Fn() -> H>(
    before: ObjectPcmDecoder<S, H, F>,
    cleared: ObjectPcmDecoder<S, H, F>,
    taken: ObjectPcmDecoder<S, H, F>,
    core: CorePcmFrame<S>,
    counter: u16,
)
    requires
        history_cleared(before, cleared),
        core_taken(cleared, taken, core, counter),
    ensures
        taken.joc_state.cold(),
        taken.core_delay@ == empty_delay(before.core_delay.silence),
        delayed_core(taken.core_delay@, core@) == delayed_core(
            empty_delay(before.core_delay.silence),
            core@,
        ),
        taken.frames_seen == before.frames_seen,
{
}

/// A unit that does not continue the sequence, as one that is pushed a second
/// time, decodes as in a decoder without any history but for the count of
/// frames: what comes out and what is left are those of a push to one.
pub proof fn spliced_units_decode_as_new<S: Copy, G, O, H, F: Fn() -> H, B, I, A, M, Y>(
    before: ObjectPcmDecoder<S, H, F>,
    after: ObjectPcmDecoder<S, H, F>,
    access_unit: &[u8],
    inspect: I,
    core: spec_fn(AccessUnitInfo<G, O>, H, H, Result<CorePcmFrame<S>, ParseError>) -> bool,
    analyse: A,
    mix: M,
    gather: Y,
    result: Result<Option<ObjectPcmPushResult<S, G, O>>, ParseError>,
) where
    I: Fn(&[u8], Level, H) -> (H, Result<AccessUnitInfo<G, O>, ParseError>),
    A: Fn(&[S]) -> B,
    M: Fn(&Vec<B>, &ObjectMix, usize) -> [S; 128],
    Y: Fn(&[S], &G) -> [S; 64],

    requires
        objects_pushed(
            before,
            after,
            access_unit,
            inspect,
            core,
            analyse,
            mix,
            gather,
            result,
        ),
        // Whatever the reading with the old history shows, it is a splice.
        forall|read: H, found: Result<AccessUnitInfo<G, O>, ParseError>| #[trigger]
            inspect.ensures(
                (access_unit, before.debug_log_level, before.history),
                (read, found),
            ) ==> shows_splice(before, access_unit, found),
    ensures
        exists|new: ObjectPcmDecoder<S, H, F>|
            {
                &&& #[trigger] history_cleared(before, new)
                &&& objects_pushed(
                    new,
                    after,
                    access_unit,
                    inspect,
                    core,
                    analyse,
                    mix,
                    gather,
                    result,
                )
            },
{
    let (middle, started) = choose|
        middle: ObjectPcmDecoder<S, H, F>,
        started: Result<Option<ObjectStart<S, G, O>>, ParseError>,
    |
        {
            &&& #[trigger] objects_begun(before, middle, access_unit, inspect, core, started)
            &&& match started {
                Err(reason) => {
                    &&& result matches Err(error) && error == reason
                    &&& after == middle
                },
                Ok(None) => result matches Ok(None) && after == middle,
                Ok(Some(start)) => unit_rebuilt(middle, after, start, analyse, mix, gather, result),
            }
        };
    let (read, settled) = choose|
        read: ObjectPcmDecoder<S, H, F>,
        settled: Result<Option<(AccessUnitInfo<G, O>, usize)>, ParseError>,
    |
        {
            &&& #[trigger] unit_settled(before, read, access_unit, inspect, settled)
            &&& match settled {
                Err(reason) => {
                    &&& started matches Err(error) && error == reason
                    &&& middle == read
                },
                Ok(None) => started matches Ok(None) && middle == read,
                Ok(Some((info, index))) => exists|
                    left: H,
                    decoded: Result<CorePcmFrame<S>, ParseError>,
                |
                    {
                        &&& #[trigger] core(info, read.history, left, decoded)
                        &&& unit_started(
                            ObjectPcmDecoder { history: left, ..read },
                            middle,
                            info,
                            index as int,
                            decoded,
                            started,
                        )
                    },
            }
        };
    let cleared = choose|cleared: ObjectPcmDecoder<S, H, F>|
        {
            &&& #[trigger] history_cleared(before, cleared)
            &&& unit_read(cleared, read, access_unit, inspect, settled)
        };
    assert(unit_settled(cleared, read, access_unit, inspect, settled));
    assert(objects_begun(cleared, middle, access_unit, inspect, core, started));
    assert(objects_pushed(
        cleared,
        after,
        access_unit,
        inspect,
        core,
        analyse,
        mix,
        gather,
        result,
    ));
}

/// Whatever history a unit is read with, it shows a JOC payload with this
/// counter.
pub open spec fn always_shows<G, O, H, I>(
    access_unit: &[u8],
    level: Level,
    inspect: I,
    counter: u16,
) -> bool where I: Fn(&[u8], Level, H) -> (H, Result<AccessUnitInfo<G, O>, ParseError>) {
    forall|history: H, read: H, found: Result<AccessUnitInfo<G, O>, ParseError>| #[trigger]
        inspect.ensures((access_unit, level, history), (read, found)) ==> {
            &&& found matches Ok(info)
            &&& size_error(access_unit@.len(), info.frame_size) is None
            &&& first_joc(info.payloads@, 0) matches Some(index)
            &&& joc_at(info.payloads@, index).sequence_counter == counter
        }
}

/// A decoder that has decoded a unit remembers its counter.
proof fn lemma_counter_remembered<S: Copy, G, O, H, F: Fn() -> H, B, I, A, M, Y>(
    before: ObjectPcmDecoder<S, H, F>,
    after: ObjectPcmDecoder<S, H, F>,
    access_unit: &[u8],
    inspect: I,
    core: spec_fn(AccessUnitInfo<G, O>, H, H, Result<CorePcmFrame<S>, ParseError>) -> bool,
    analyse: A,
    mix: M,
    gather: Y,
    push: ObjectPcmPushResult<S, G, O>,
    counter: u16,
) where
    I: Fn(&[u8], Level, H) -> (H, Result<AccessUnitInfo<G, O>, ParseError>),
    A: Fn(&[S]) -> B,
    M: Fn(&Vec<B>, &ObjectMix, usize) -> [S; 128],
    Y: Fn(&[S], &G) -> [S; 64],

    requires
        objects_pushed(
            before,
            after,
            access_unit,
            inspect,
            core,
            analyse,
            mix,
            gather,
            Ok(Some(push)),
        ),
        always_shows(access_unit, before.debug_log_level, inspect, counter),
    ensures
        after.last_sequence == Some(counter),
        after.debug_log_level == before.debug_log_level,
{
    let (middle, started) = choose|
        middle: ObjectPcmDecoder<S, H, F>,
        started: Result<Option<ObjectStart<S, G, O>>, ParseError>,
    |
        {
            &&& #[trigger] objects_begun(before, middle, access_unit, inspect, core, started)
            &&& match started {
                Ok(Some(start)) => unit_rebuilt(
                    middle,
                    after,
                    start,
                    analyse,
                    mix,
                    gather,
                    Ok(Some(push)),
                ),
                _ => false,
            }
        };
    assert(after.last_sequence == middle.last_sequence);
    assert(after.debug_log_level == middle.debug_log_level);
    let (read, settled) = choose|
        read: ObjectPcmDecoder<S, H, F>,
        settled: Result<Option<(AccessUnitInfo<G, O>, usize)>, ParseError>,
    |
        {
            &&& #[trigger] unit_settled(before, read, access_unit, inspect, settled)
            &&& match settled {
                Ok(Some((info, index))) => exists|
                    left: H,
                    decoded: Result<CorePcmFrame<S>, ParseError>,
                |
                    {
                        &&& #[trigger] core(info, read.history, left, decoded)
                        &&& unit_started(
                            ObjectPcmDecoder { history: left, ..read },
                            middle,
                            info,
                            index as int,
                            decoded,
                            started,
                        )
                    },
                _ => false,
            }
        };
    assert(read.debug_log_level == before.debug_log_level);
    if let Ok(Some((info, index))) = settled {
        assert(exists|history: H|
            #[trigger] inspect.ensures(
                (access_unit, before.debug_log_level, history),
                (read.history, Ok(info)),
            ));
        assert(first_joc(info.payloads@, 0) == Some(index as int));
        assert(middle.last_sequence == Some(
            joc_at(info.payloads@, index as int).sequence_counter,
        ));
    }
}

/// A unit that is pushed a second time cannot follow itself, so it decodes as in
/// a decoder without any history, whatever the first push left.
pub proof fn repeated_units_decode_as_new<S: Copy, G, O, H, F: Fn() -> H, B, I, A, M, Y>(
    before: ObjectPcmDecoder<S, H, F>,
    between: ObjectPcmDecoder<S, H, F>,
    after: ObjectPcmDecoder<S, H, F>,
    access_unit: &[u8],
    inspect: I,
    core: spec_fn(AccessUnitInfo<G, O>, H, H, Result<CorePcmFrame<S>, ParseError>) -> bool,
    analyse: A,
    mix: M,
    gather: Y,
    first: ObjectPcmPushResult<S, G, O>,
    second: Result<Option<ObjectPcmPushResult<S, G, O>>, ParseError>,
    counter: u16,
) where
    I: Fn(&[u8], Level, H) -> (H, Result<AccessUnitInfo<G, O>, ParseError>),
    A: Fn(&[S]) -> B,
    M: Fn(&Vec<B>, &ObjectMix, usize) -> [S; 128],
    Y: Fn(&[S], &G) -> [S; 64],

    requires
        always_shows(access_unit, before.debug_log_level, inspect, counter),
        objects_pushed(
            before,
            between,
            access_unit,
            inspect,
            core,
            analyse,
            mix,
            gather,
            Ok(Some(first)),
        ),
        objects_pushed(
            between,
            after,
            access_unit,
            inspect,
            core,
            analyse,
            mix,
            gather,
            second,
        ),
    ensures
        exists|new: ObjectPcmDecoder<S, H, F>|
            {
                &&& #[trigger] history_cleared(between, new)
                &&& objects_pushed(
                    new,
                    after,
                    access_unit,
                    inspect,
                    core,
                    analyse,
                    mix,
                    gather,
                    second,
                )
            },
{
    lemma_counter_remembered(
        before,
        between,
        access_unit,
        inspect,
        core,
        analyse,
        mix,
        gather,
        first,
        counter,
    );
    spliced_units_decode_as_new(
        between,
        after,
        access_unit,
        inspect,
        core,
        analyse,
        mix,
        gather,
        second,
    );
}

} // verus!
