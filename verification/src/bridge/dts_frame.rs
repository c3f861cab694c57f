//! Frames from decoded DTS audio: the bed, the fixed extension channels, and
//! the object channels.

use crate::bridge::dts_objects::{
    announced_after, build_object_metadata, declared_list, describes, nothing_due, Announced,
    ObjectsModel, XPresentation,
};
use crate::bridge::frame::{
    column_model, columns_reach, interleave, interleaved, DecodedFrame, MetadataFrame,
    ObjectChannel, SphericalPosition,
};
use crate::bridge::labels::{
    dca_bed_channel_to_r, dca_bed_label, dca_spatial_channel_to_r, dca_spatial_label,
    dts_speaker_label, speaker_to_label, DcaBedChannel, RChannelLabel, SpatialChannel,
};
use vstd::prelude::*;

verus! {

/// Whether `value` is a power of two.
pub open spec fn is_power_of_two(value: int) -> bool
    decreases value,
{
    if value <= 1 {
        value == 1
    } else {
        value % 2 == 0 && is_power_of_two(value / 2)
    }
}

/// Whether the `count`th occurrence of a finding is reported: the first, and
/// then ever more rarely.
pub open spec fn is_reported(count: int) -> bool {
    count == 1 || is_power_of_two(count)
}

/// Counts one more occurrence of a finding and says whether it is reported.
fn note(count: u64) -> (result: (u64, bool))
    requires
        count < u64::MAX,
    ensures
        result.0 == count + 1,
        result.1 == is_reported(count + 1),
{
    let next: u64 = count + 1;
    let mut rest: u64 = next;
    while rest > 1 && rest % 2 == 0
        invariant
            is_power_of_two(next as int) == is_power_of_two(rest as int),
            rest >= 1,
        decreases rest,
    {
        rest = rest / 2;
    }
    (next, rest == 1)
}

/// Per-stream DTS:X extension state. `M` is the extension's metadata.
#[derive(Debug)]
pub struct DtsXState<M> {
    /// Presentation latched from the first frame with usable extension
    /// waveforms. A later frame whose waveforms are missing keeps this channel
    /// shape.
    pub locked: Option<XPresentation>,
    /// The most recent metadata that parsed.
    pub last_metadata: Option<M>,
    /// Position last announced per object feed.
    pub emitted_positions: [Option<SphericalPosition>; 8],
    /// Whether the estimation has been announced for this stream.
    pub estimation_noted: bool,
    pub parse_failures: u64,
    pub feed_dropouts: u64,
    pub bed_extension_dropouts: u64,
    pub undecodable_extensions: u64,
}

/// Where a frame takes the plan from by which waveforms leave the bed.
#[derive(Debug, Clone, Copy, PartialEq, Eq, Structural)]
pub enum PlanSource {
    /// The metadata that was read last.
    Metadata,
    /// The configured gain of the four standard heights.
    StandardHeights,
    /// Nothing is known: every waveform stays in the bed.
    AllUnknown,
}

/// Where a frame takes its plan from, and whether it is reported that its own
/// metadata could not be read.
#[derive(Debug, Clone, Copy, PartialEq, Eq, Structural)]
pub struct PlanChoice {
    pub source: PlanSource,
    pub reported: bool,
}

/// What a frame's extension is found to lack.
#[derive(Debug, Clone, Copy, PartialEq, Eq, Structural)]
pub enum Finding {
    /// Its waveforms are unavailable: the extension channels are silent.
    FeedDropout,
    /// It is not decodable and nothing is latched: the bed plays as authored.
    UndecodableExtension,
}

/// Whether waveforms are estimated out of the bed, and what is noted of it.
pub open spec fn estimation_settled<M>(
    before: DtsXState<M>,
    after: DtsXState<M>,
    estimate_unknown: bool,
    has_unknown: bool,
    estimates: bool,
) -> bool {
    &&& estimates == (estimate_unknown && has_unknown)
    &&& after == (DtsXState { estimation_noted: before.estimation_noted || estimates, ..before })
}

/// Whether latching `detected` changes the presentation.
pub open spec fn shape_changes(
    locked: Option<XPresentation>,
    detected: Option<XPresentation>,
) -> bool {
    detected is Some && locked is Some && locked != detected
}

/// Where the plan of a frame comes from, once its metadata was taken over where
/// it could be read.
pub open spec fn plan_resolved<M>(
    before: DtsXState<M>,
    after: DtsXState<M>,
    parsed: Option<M>,
    presentation: XPresentation,
    choice: PlanChoice,
) -> bool {
    &&& after == (DtsXState {
        last_metadata: if parsed is Some {
            parsed
        } else {
            before.last_metadata
        },
        parse_failures: if parsed is Some {
            before.parse_failures
        } else {
            (before.parse_failures + 1) as u64
        },
        ..before
    })
    &&& choice.source == if after.last_metadata is Some {
        PlanSource::Metadata
    } else if presentation == XPresentation::Height {
        PlanSource::StandardHeights
    } else {
        PlanSource::AllUnknown
    }
    &&& choice.reported == (parsed is None && is_reported(before.parse_failures + 1))
}

/// The finding that is reported of a frame.
pub open spec fn reported_finding<M>(hd: &HdFrame, state: &DtsXState<M>) -> Option<Finding> {
    if hd.detected is Some || !hd.has_extension {
        None
    } else if state.locked is Some {
        if is_reported(state.feed_dropouts + 1) {
            Some(Finding::FeedDropout)
        } else {
            None
        }
    } else if is_reported(state.undecodable_extensions + 1) {
        Some(Finding::UndecodableExtension)
    } else {
        None
    }
}

impl<M> DtsXState<M> {
    /// Nothing is known of the stream.
    pub open spec fn is_fresh(&self) -> bool {
        &&& self.locked is None
        &&& self.last_metadata is None
        &&& forall|feed: int| 0 <= feed < 8 ==> self.emitted_positions@[feed] is None
        &&& !self.estimation_noted
        &&& self.parse_failures == 0
        &&& self.feed_dropouts == 0
        &&& self.bed_extension_dropouts == 0
        &&& self.undecodable_extensions == 0
    }

    /// The state of a new stream.
    pub fn new() -> (state: Self)
        ensures
            state.is_fresh(),
    {
        DtsXState {
            locked: None,
            last_metadata: None,
            emitted_positions: [None; 8],
            estimation_noted: false,
            parse_failures: 0,
            feed_dropouts: 0,
            bed_extension_dropouts: 0,
            undecodable_extensions: 0,
        }
    }

    /// Counts a frame whose metadata could not be read, and says whether that
    /// is reported.
    pub fn note_parse_failure(&mut self) -> (reported: bool)
        requires
            old(self).parse_failures < u64::MAX,
        ensures
            *final(self) == (DtsXState {
                parse_failures: (old(self).parse_failures + 1) as u64,
                ..*old(self)
            }),
            reported == is_reported(old(self).parse_failures + 1),
    {
        let (count, reported) = note(self.parse_failures);
        self.parse_failures = count;
        reported
    }

    /// Counts a frame whose further bed channels did not decode, so that its
    /// bed is the core alone, and says whether that is reported.
    pub fn note_bed_extension_dropout(&mut self) -> (reported: bool)
        requires
            old(self).bed_extension_dropouts < u64::MAX,
        ensures
            *final(self) == (DtsXState {
                bed_extension_dropouts: (old(self).bed_extension_dropouts + 1) as u64,
                ..*old(self)
            }),
            reported == is_reported(old(self).bed_extension_dropouts + 1),
    {
        let (count, reported) = note(self.bed_extension_dropouts);
        self.bed_extension_dropouts = count;
        reported
    }

    /// Counts a frame whose extension waveforms are unavailable, and says
    /// whether that is reported.
    pub fn note_feed_dropout(&mut self) -> (reported: bool)
        requires
            old(self).feed_dropouts < u64::MAX,
        ensures
            *final(self) == (DtsXState {
                feed_dropouts: (old(self).feed_dropouts + 1) as u64,
                ..*old(self)
            }),
            reported == is_reported(old(self).feed_dropouts + 1),
    {
        let (count, reported) = note(self.feed_dropouts);
        self.feed_dropouts = count;
        reported
    }

    /// Counts a frame whose extension is not decodable while no presentation
    /// is latched, and says whether that is reported.
    pub fn note_undecodable_extension(&mut self) -> (reported: bool)
        requires
            old(self).undecodable_extensions < u64::MAX,
        ensures
            *final(self) == (DtsXState {
                undecodable_extensions: (old(self).undecodable_extensions + 1) as u64,
                ..*old(self)
            }),
            reported == is_reported(old(self).undecodable_extensions + 1),
    {
        let (count, reported) = note(self.undecodable_extensions);
        self.undecodable_extensions = count;
        reported
    }

    /// Takes the frame's metadata over, `parsed` where it could be read, and
    /// says where the fold plan comes from: the frame's own metadata, the last
    /// readable one, or the fallback of the presentation. A frame whose metadata
    /// could not be read is counted.
    pub fn resolve_plan(&mut self, parsed: Option<M>, presentation: XPresentation) -> (choice:
        PlanChoice)
        requires
            old(self).parse_failures < u64::MAX,
        ensures
            plan_resolved(*old(self), *final(self), parsed, presentation, choice),
    {
        let mut reported: bool = false;
        if parsed.is_some() {
            self.last_metadata = parsed;
        } else {
            reported = self.note_parse_failure();
        }
        let source: PlanSource = if self.last_metadata.is_some() {
            PlanSource::Metadata
        } else if presentation == XPresentation::Height {
            PlanSource::StandardHeights
        } else {
            PlanSource::AllUnknown
        };
        PlanChoice { source, reported }
    }

    /// Whether waveforms without a stated fold are estimated out of the bed in
    /// this frame, which is noted once per stream.
    pub fn note_estimation(&mut self, estimate_unknown: bool, has_unknown: bool) -> (estimates:
        bool)
        ensures
            estimation_settled(
                *old(self),
                *final(self),
                estimate_unknown,
                has_unknown,
                estimates,
            ),
    {
        if estimate_unknown && has_unknown {
            self.estimation_noted = true;
            true
        } else {
            false
        }
    }

    /// Whether latching `detected` changes the presentation, so that running
    /// estimates do not apply to it.
    pub fn presentation_changes(&self, detected: Option<XPresentation>) -> (changes: bool)
        ensures
            changes == shape_changes(self.locked, detected),
    {
        match (detected, self.locked) {
            (Some(detected), Some(locked)) => detected != locked,
            _ => false,
        }
    }
}

/// One decoded DTS-HD frame in samples of the renderer.
///
/// The bed has had the extension's known share removed. `feeds` are the
/// extension waveforms, `feed_known` says of which the fold is known, and
/// `positions` holds the objects' positions; all three belong to `detected`,
/// the presentation of a complete set of waveforms.
#[derive(Debug)]
pub struct HdFrame {
    pub sample_rate: u32,
    pub sample_count: usize,
    pub samples: Vec<Option<Vec<i32>>>,
    pub detected: Option<XPresentation>,
    pub feeds: Vec<Vec<i32>>,
    pub feed_known: Vec<bool>,
    pub positions: Vec<Option<SphericalPosition>>,
    /// The frame carries an extension, decodable or not.
    pub has_extension: bool,
}

/// The speakers from `speaker` on that have samples, in ascending order.
pub open spec fn active_from(samples: Seq<Option<Vec<i32>>>, speaker: int) -> Seq<int>
    decreases samples.len() - speaker,
{
    if speaker >= samples.len() {
        Seq::empty()
    } else if samples[speaker] is Some {
        seq![speaker] + active_from(samples, speaker + 1)
    } else {
        active_from(samples, speaker + 1)
    }
}

/// The speakers that have samples, in ascending order.
pub open spec fn active_speakers(samples: Seq<Option<Vec<i32>>>) -> Seq<int> {
    active_from(samples, 0)
}

/// Every speaker that has samples has `count` of them.
pub open spec fn bed_is_even(samples: Seq<Option<Vec<i32>>>, count: int) -> bool {
    forall|speaker: int|
        0 <= speaker < samples.len() ==> (#[trigger] samples[speaker] matches Some(channel)
            ==> channel@.len() == count)
}

/// The bed's columns, in the order of the active speakers.
pub open spec fn bed_columns(hd: &HdFrame) -> Seq<Option<Seq<i32>>> {
    let active = active_speakers(hd.samples@);
    Seq::new(active.len(), |index: int| Some(hd.samples@[active[index]]->0@))
}

/// The bed's labels, in the order of the active speakers.
pub open spec fn bed_labels(hd: &HdFrame) -> Seq<RChannelLabel> {
    let active = active_speakers(hd.samples@);
    Seq::new(active.len(), |index: int| dts_speaker_label(active[index] as usize))
}

/// The column of waveform `feed`: silent unless it was decoded and its fold is
/// known, so that nothing plays twice.
pub open spec fn feed_column(hd: &HdFrame, feed: int) -> Option<Seq<i32>> {
    if hd.detected is Some && feed < hd.feeds@.len() && feed < hd.feed_known@.len()
        && hd.feed_known@[feed] {
        Some(hd.feeds@[feed]@)
    } else {
        None
    }
}

/// The waveform that extension channel `index` plays: the fixed ones, then the
/// objects.
pub open spec fn feed_of_channel(presentation: XPresentation, index: int) -> int {
    let heights = presentation.heights().len();
    if index < heights {
        presentation.objects() + index
    } else {
        index - heights
    }
}

/// The columns of a frame with this presentation.
pub open spec fn extended_columns(hd: &HdFrame, presentation: XPresentation) -> Seq<
    Option<Seq<i32>>,
> {
    bed_columns(hd) + Seq::new(
        presentation.feeds() as nat,
        |index: int| feed_column(hd, feed_of_channel(presentation, index)),
    )
}

/// The labels of a frame with this presentation.
pub open spec fn extended_labels(hd: &HdFrame, presentation: XPresentation) -> Seq<RChannelLabel> {
    bed_labels(hd) + Seq::new(
        presentation.feeds() as nat,
        |index: int|
            if index < presentation.heights().len() {
                dca_spatial_label(presentation.heights()[index])
            } else {
                RChannelLabel::Object
            },
    )
}

/// The presentation that a frame plays with: the one it shows, else the latched
/// one.
pub open spec fn frame_presentation<M>(hd: &HdFrame, state: &DtsXState<M>) -> Option<
    XPresentation,
> {
    if hd.detected is Some {
        hd.detected
    } else {
        state.locked
    }
}

/// The extension state after a frame, up to the announced positions.
pub open spec fn state_after<M>(hd: &HdFrame, state: DtsXState<M>) -> DtsXState<M> {
    if hd.detected is Some {
        DtsXState { locked: hd.detected, ..state }
    } else if !hd.has_extension {
        state
    } else if state.locked is Some {
        DtsXState { feed_dropouts: (state.feed_dropouts + 1) as u64, ..state }
    } else {
        DtsXState { undecodable_extensions: (state.undecodable_extensions + 1) as u64, ..state }
    }
}

/// The objects of a frame, as its metadata gives them.
pub open spec fn frame_objects(
    hd: &HdFrame,
    presentation: XPresentation,
    sample_pos: u64,
) -> ObjectsModel {
    ObjectsModel {
        presentation,
        positions: if hd.detected is Some {
            hd.positions@
        } else {
            Seq::empty()
        },
        first_object_channel: (active_speakers(hd.samples@).len()
            + presentation.heights().len()) as int,
        sample_pos,
        sample_rate: hd.sample_rate,
        sample_count: hd.sample_count,
    }
}

/// Sizes that fit the types of a frame.
pub open spec fn frame_fits(hd: &HdFrame) -> bool {
    &&& hd.sample_count <= u32::MAX
    &&& hd.samples@.len() + 8 <= u32::MAX
    &&& hd.sample_count * (hd.samples@.len() + 8) <= isize::MAX / 8
    &&& hd.detected is Some ==> forall|feed: int|
        0 <= feed < hd.feeds@.len() ==> (#[trigger] hd.feeds@[feed])@.len() >= hd.sample_count
}

/// `frame` is the frame with these columns and labels.
pub open spec fn plays(
    frame: DecodedFrame,
    sample_rate: u32,
    sample_count: int,
    columns: Seq<Option<Seq<i32>>>,
    labels: Seq<RChannelLabel>,
) -> bool {
    &&& frame.wf()
    &&& frame.plain_settings()
    &&& frame.sampling_frequency == sample_rate
    &&& frame.sample_count == sample_count
    &&& frame.channel_count == columns.len()
    &&& frame.samples() == interleaved(columns, sample_count)
    &&& frame.channel_labels@ == labels
}

/// There are at most as many active speakers as speakers, each a speaker with
/// samples, in ascending order.
proof fn lemma_active_from(samples: Seq<Option<Vec<i32>>>, speaker: int)
    requires
        0 <= speaker,
    ensures
        active_from(samples, speaker).len() <= if speaker < samples.len() {
            samples.len() - speaker
        } else {
            0
        },
        forall|index: int|
            0 <= index < active_from(samples, speaker).len() ==> {
                let active = #[trigger] active_from(samples, speaker)[index];
                speaker <= active < samples.len() && samples[active] is Some
            },
        forall|left: int, right: int|
            0 <= left < right < active_from(samples, speaker).len() ==> (#[trigger] active_from(
                samples,
                speaker,
            )[left]) < (#[trigger] active_from(samples, speaker)[right]),
    decreases samples.len() - speaker,
{
    if speaker < samples.len() {
        lemma_active_from(samples, speaker + 1);
        let rest = active_from(samples, speaker + 1);
        if samples[speaker] is Some {
            let all = active_from(samples, speaker);
            assert(all == seq![speaker] + rest);
            assert forall|index: int| 0 <= index < all.len() implies {
                let active = #[trigger] all[index];
                speaker <= active < samples.len() && samples[active] is Some
            } by {
                if index > 0 {
                    assert(all[index] == rest[index - 1]);
                }
            }
            assert forall|left: int, right: int| 0 <= left < right < all.len() implies (
            #[trigger] all[left]) < (#[trigger] all[right]) by {
                assert(all[right] == rest[right - 1]);
                if left > 0 {
                    assert(all[left] == rest[left - 1]);
                }
            }
        }
    }
}

/// The speakers that have samples, in ascending order.
pub fn active_list(samples: &Vec<Option<Vec<i32>>>) -> (active: Vec<usize>)
    ensures
        active@.len() == active_speakers(samples@).len(),
        forall|index: int|
            0 <= index < active@.len() ==> #[trigger] active@[index] == active_speakers(
                samples@,
            )[index],
{
    let mut active: Vec<usize> = Vec::new();
    let mut speaker: usize = 0;
    let ghost all = active_speakers(samples@);
    while speaker < samples.len()
        invariant
            speaker <= samples@.len(),
            all == active_speakers(samples@),
            all.len() == active@.len() + active_from(samples@, speaker as int).len(),
            forall|index: int| 0 <= index < active@.len() ==> #[trigger] active@[index] == all[index],
            forall|index: int|
                active@.len() <= index < all.len() ==> #[trigger] all[index] == active_from(
                    samples@,
                    speaker as int,
                )[index - active@.len()],
        decreases samples.len() - speaker,
    {
        if samples[speaker].is_some() {
            let ghost rest = active_from(samples@, speaker as int);
            let ghost behind = active_from(samples@, speaker + 1);
            assert(rest == seq![speaker as int] + behind);
            let ghost before = active@.len() as int;
            assert(all[before] == rest[0]);
            active.push(speaker);
            assert forall|index: int| before + 1 <= index < all.len() implies #[trigger] all[index]
                == behind[index - before - 1] by {
                assert(all[index] == rest[index - before]);
            }
        }
        speaker = speaker + 1;
    }
    active
}

/// Whether every speaker that has samples has `count` of them.
fn check_bed(samples: &Vec<Option<Vec<i32>>>, count: usize) -> (even: bool)
    ensures
        even == bed_is_even(samples@, count as int),
{
    let mut speaker: usize = 0;
    while speaker < samples.len()
        invariant
            speaker <= samples@.len(),
            forall|seen: int|
                0 <= seen < speaker ==> (#[trigger] samples@[seen] matches Some(channel)
                    ==> channel@.len() == count),
        decreases samples.len() - speaker,
    {
        if let Some(channel) = &samples[speaker] {
            if channel.len() != count {
                assert(samples@[speaker as int] is Some);
                return false;
            }
        }
        speaker = speaker + 1;
    }
    true
}

/// The bed's columns and labels.
fn bed_parts<'a>(hd: &'a HdFrame) -> (parts: (Vec<Option<&'a Vec<i32>>>, Vec<RChannelLabel>))
    ensures
        column_model(parts.0@) == bed_columns(hd),
        parts.1@ == bed_labels(hd),
        parts.0@.len() <= hd.samples@.len(),
{
    let active: Vec<usize> = active_list(&hd.samples);
    proof {
        lemma_active_from(hd.samples@, 0);
    }
    let mut columns: Vec<Option<&'a Vec<i32>>> = Vec::new();
    let mut labels: Vec<RChannelLabel> = Vec::new();
    let mut index: usize = 0;
    let ghost all = active_speakers(hd.samples@);
    while index < active.len()
        invariant
            index <= active@.len(),
            all == active_speakers(hd.samples@),
            active@.len() == all.len(),
            forall|seen: int| 0 <= seen < active@.len() ==> #[trigger] active@[seen] == all[seen],
            forall|seen: int|
                0 <= seen < all.len() ==> {
                    let speaker = #[trigger] all[seen];
                    0 <= speaker < hd.samples@.len() && hd.samples@[speaker] is Some
                },
            columns@.len() == index,
            labels@.len() == index,
            forall|seen: int|
                0 <= seen < index ==> {
                    &&& #[trigger] columns@[seen] is Some
                    &&& columns@[seen]->0@ == hd.samples@[all[seen]]->0@
                },
            forall|seen: int|
                0 <= seen < index ==> #[trigger] labels@[seen] == dts_speaker_label(
                    all[seen] as usize,
                ),
        decreases active.len() - index,
    {
        let speaker: usize = active[index];
        assert(all[index as int] == speaker);
        columns.push(hd.samples[speaker].as_ref());
        labels.push(speaker_to_label(speaker));
        index = index + 1;
    }
    assert(column_model(columns@) =~= bed_columns(hd));
    assert(labels@ =~= bed_labels(hd));
    (columns, labels)
}

/// A frame with no extension presentation: the bed as decoded.
fn bed_only_frame(hd: &HdFrame) -> (frame: DecodedFrame)
    requires
        frame_fits(hd),
        bed_is_even(hd.samples@, hd.sample_count as int),
    ensures
        plays(
            frame,
            hd.sample_rate,
            hd.sample_count as int,
            bed_columns(hd),
            bed_labels(hd),
        ),
        frame.metadata@.len() == 0,
{
    let (columns, channel_labels) = bed_parts(hd);
    proof {
        lemma_bed_reaches(hd);
        lemma_width_fits(hd, columns@.len() as int);
    }
    let pcm = interleave(&columns, hd.sample_count);
    DecodedFrame {
        sampling_frequency: hd.sample_rate,
        sample_count: hd.sample_count as u32,
        channel_count: columns.len() as u32,
        pcm,
        channel_labels,
        metadata: Vec::new(),
        drc_ramp_duration: 0,
        dialogue_level: None,
        is_new_segment: false,
    }
}

/// Every column of an even bed has the frame's length.
proof fn lemma_bed_reaches(hd: &HdFrame)
    requires
        bed_is_even(hd.samples@, hd.sample_count as int),
    ensures
        columns_reach(bed_columns(hd), hd.sample_count as int),
{
    lemma_active_from(hd.samples@, 0);
    let active = active_speakers(hd.samples@);
    assert forall|column: int| 0 <= column < bed_columns(hd).len() implies (
    #[trigger] bed_columns(hd)[column] matches Some(samples) ==> samples.len()
        == hd.sample_count) by {
        assert(hd.samples@[active[column]] is Some);
    }
}

/// The samples of a frame with at most eight extension channels fit.
proof fn lemma_width_fits(hd: &HdFrame, width: int)
    requires
        frame_fits(hd),
        0 <= width <= hd.samples@.len() + 8,
    ensures
        hd.sample_count * width <= isize::MAX / 8,
{
    let count = hd.sample_count as int;
    let most = hd.samples@.len() + 8;
    assert(count * width <= count * most) by (nonlinear_arith)
        requires
            0 <= count,
            width <= most,
    ;
}

/// `frame` is the frame that a decoded DTS-HD frame is presented as.
pub open spec fn presents<M>(
    frame: DecodedFrame,
    hd: &HdFrame,
    state: &DtsXState<M>,
    told: Announced,
    sample_pos: u64,
) -> bool {
    let count = hd.sample_count as int;
    match frame_presentation(hd, state) {
        None => plays(frame, hd.sample_rate, count, bed_columns(hd), bed_labels(hd))
            && frame.metadata@.len() == 0,
        Some(presentation) => {
            let objects = frame_objects(hd, presentation, sample_pos);
            &&& plays(
                frame,
                hd.sample_rate,
                count,
                extended_columns(hd, presentation),
                extended_labels(hd, presentation),
            )
            &&& if nothing_due(objects, told) {
                frame.metadata@.len() == 0
            } else {
                frame.metadata@.len() == 1 && describes(frame.metadata@[0], objects, told)
            }
        },
    }
}

/// Whether a decoded DTS-HD frame is presented with object channels.
pub open spec fn presents_objects<M>(hd: &HdFrame, state: &DtsXState<M>) -> bool {
    frame_presentation(hd, state) matches Some(presentation) && presentation.objects() > 0
}

/// What the renderer has been told after a decoded DTS-HD frame.
pub open spec fn told_after<M>(
    hd: &HdFrame,
    state: &DtsXState<M>,
    told: Announced,
    sample_pos: u64,
) -> Announced {
    match frame_presentation(hd, state) {
        None => told,
        Some(presentation) => announced_after(frame_objects(hd, presentation, sample_pos), told),
    }
}

/// A built frame, and whether it carries object channels.
#[derive(Debug)]
pub struct BuiltFrame {
    pub frame: DecodedFrame,
    pub has_objects: bool,
    /// What is reported of the frame's extension.
    pub reported: Option<Finding>,
}

/// The columns of a frame and their labels: the bed, then the fixed extension
/// channels, then the object channels.
fn extended_parts<'a>(hd: &'a HdFrame, presentation: XPresentation) -> (parts: (
    Vec<Option<&'a Vec<i32>>>,
    Vec<RChannelLabel>,
))
    requires
        frame_fits(hd),
        bed_is_even(hd.samples@, hd.sample_count as int),
    ensures
        column_model(parts.0@) == extended_columns(hd, presentation),
        columns_reach(extended_columns(hd, presentation), hd.sample_count as int),
        parts.0@.len() == bed_columns(hd).len() + presentation.feeds(),
        parts.0@.len() <= hd.samples@.len() + 8,
        parts.1@ == extended_labels(hd, presentation),
{
    let (bed, bed_names) = bed_parts(hd);
    let mut columns: Vec<Option<&Vec<i32>>> = bed;
    let mut channel_labels: Vec<RChannelLabel> = bed_names;
    let bed_width: usize = columns.len();
    let objects: usize = presentation.object_count();
    let feeds: usize = presentation.feed_count();
    let fixed: Vec<SpatialChannel> = presentation.fixed_channels();
    let mut index: usize = 0;
    proof {
        lemma_bed_reaches(hd);
        assert(column_model(columns@) =~= extended_columns(hd, presentation).take(
            bed_width as int,
        ));
        assert(channel_labels@ =~= extended_labels(hd, presentation).take(bed_width as int));
    }
    while index < feeds
        invariant
            index <= feeds <= 8,
            feeds == presentation.feeds(),
            objects == presentation.objects(),
            fixed@ == presentation.heights(),
            objects + fixed@.len() == feeds,
            bed_width <= hd.samples@.len(),
            bed_columns(hd).len() == bed_width,
            bed_labels(hd).len() == bed_width,
            frame_fits(hd),
            columns_reach(column_model(columns@), hd.sample_count as int),
            columns@.len() == bed_width + index,
            channel_labels@.len() == bed_width + index,
            column_model(columns@) == extended_columns(hd, presentation).take(bed_width + index),
            channel_labels@ == extended_labels(hd, presentation).take(bed_width + index),
        decreases feeds - index,
    {
        let feed: usize = if index < fixed.len() {
            objects + index
        } else {
            index - fixed.len()
        };
        let ghost before = columns@;
        assert(feed == feed_of_channel(presentation, index as int));
        if hd.detected.is_some() && feed < hd.feeds.len() && feed < hd.feed_known.len()
            && hd.feed_known[feed] {
            columns.push(Some(&hd.feeds[feed]));
        } else {
            columns.push(None);
        }
        if index < fixed.len() {
            channel_labels.push(dca_spatial_channel_to_r(fixed[index]));
        } else {
            channel_labels.push(RChannelLabel::Object);
        }
        proof {
            let model = column_model(columns@);
            assert(model =~= column_model(before).push(feed_column(hd, feed as int)));
            assert(extended_columns(hd, presentation)[bed_width + index] == feed_column(
                hd,
                feed as int,
            ));
            assert(model =~= extended_columns(hd, presentation).take(bed_width + index + 1));
            assert(channel_labels@ =~= extended_labels(hd, presentation).take(
                bed_width + index + 1,
            ));
            assert forall|column: int| 0 <= column < model.len() implies (
            #[trigger] model[column] matches Some(samples) ==> samples.len() >= hd.sample_count) by {
                if column < before.len() {
                    assert(model[column] == column_model(before)[column]);
                }
            }
        }
        index = index + 1;
    }
    proof {
        assert(extended_columns(hd, presentation).take(bed_width + feeds) =~= extended_columns(
            hd,
            presentation,
        ));
        assert(extended_labels(hd, presentation).take(bed_width + feeds) =~= extended_labels(
            hd,
            presentation,
        ));
    }
    (columns, channel_labels)
}

/// Builds a frame from decoded DTS-HD audio: the bed, then the fixed extension
/// channels, then the object channels.
///
/// Gives the frame, whether it carries object channels, and what is reported of
/// its extension. A bed channel of another length drops the frame.
pub fn build_hd_frame_with_extensions<M>(
    hd: &HdFrame,
    state: &mut DtsXState<M>,
    sample_pos: u64,
    declared_object_channels: &mut Option<Vec<ObjectChannel>>,
) -> (result: Option<BuiltFrame>)
    requires
        frame_fits(hd),
        old(state).feed_dropouts < u64::MAX,
        old(state).undecodable_extensions < u64::MAX,
    ensures
        !bed_is_even(hd.samples@, hd.sample_count as int) ==> {
            &&& result is None
            &&& *final(state) == *old(state)
            &&& *final(declared_object_channels) == *old(declared_object_channels)
        },
        bed_is_even(hd.samples@, hd.sample_count as int) ==> {
            &&& result matches Some(built)
            &&& *final(state) == (DtsXState {
                emitted_positions: final(state).emitted_positions,
                ..state_after(hd, *old(state))
            })
            &&& ({
                let told = Announced {
                    emitted: old(state).emitted_positions@,
                    declared: declared_list(*old(declared_object_channels)),
                };
                &&& presents(built.frame, hd, old(state), told, sample_pos)
                &&& built.has_objects == presents_objects(hd, old(state))
                &&& built.reported == reported_finding(hd, old(state))
                &&& (Announced {
                    emitted: final(state).emitted_positions@,
                    declared: declared_list(*final(declared_object_channels)),
                }) == told_after(hd, old(state), told, sample_pos)
            })
        },
{
    if !check_bed(&hd.samples, hd.sample_count) {
        return None;
    }
    let mut reported: Option<Finding> = None;
    let presentation: XPresentation = match (hd.detected, state.locked) {
        (Some(detected), _) => {
            state.locked = Some(detected);
            detected
        },
        (None, Some(locked)) => {
            if hd.has_extension && state.note_feed_dropout() {
                reported = Some(Finding::FeedDropout);
            }
            locked
        },
        (None, None) => {
            if hd.has_extension && state.note_undecodable_extension() {
                reported = Some(Finding::UndecodableExtension);
            }
            return Some(BuiltFrame { frame: bed_only_frame(hd), has_objects: false, reported });
        },
    };
    let (columns, channel_labels) = extended_parts(hd, presentation);
    let objects: usize = presentation.object_count();
    proof {
        lemma_width_fits(hd, columns@.len() as int);
    }
    let pcm = interleave(&columns, hd.sample_count);
    let no_positions: Vec<Option<SphericalPosition>> = Vec::new();
    let positions: &Vec<Option<SphericalPosition>> = if hd.detected.is_some() {
        &hd.positions
    } else {
        &no_positions
    };
    let metadata: Vec<MetadataFrame> = build_object_metadata(
        presentation,
        positions,
        columns.len() - objects,
        sample_pos,
        hd.sample_rate,
        hd.sample_count,
        &mut state.emitted_positions,
        declared_object_channels,
    );
    proof {
        let model = frame_objects(hd, presentation, sample_pos);
        assert(positions@ =~= model.positions);
    }
    let frame = DecodedFrame {
        sampling_frequency: hd.sample_rate,
        sample_count: hd.sample_count as u32,
        channel_count: columns.len() as u32,
        pcm,
        channel_labels,
        metadata,
        drc_ramp_duration: 0,
        dialogue_level: None,
        is_new_segment: false,
    };
    Some(BuiltFrame { frame, has_objects: objects > 0, reported })
}

/// A plain DTS core frame in samples of the renderer: the full-band channels in
/// their order, and the LFE channel.
#[derive(Debug)]
pub struct CoreFrame {
    pub sample_rate: u32,
    pub sample_count: usize,
    pub fullband_channels: Vec<Vec<i32>>,
    pub fullband_channel_order: Vec<DcaBedChannel>,
    pub lfe_channel: Option<Vec<i32>>,
}

/// The columns of a core frame: the full-band channels, then the LFE.
pub open spec fn core_columns(core: &CoreFrame) -> Seq<Option<Seq<i32>>> {
    let fullband = Seq::new(
        core.fullband_channels@.len(),
        |channel: int| Some(core.fullband_channels@[channel]@),
    );
    match core.lfe_channel {
        Some(lfe) => fullband.push(Some(lfe@)),
        None => fullband,
    }
}

/// The labels of a core frame: those of the full-band channels, then the LFE's.
pub open spec fn core_labels(core: &CoreFrame) -> Seq<RChannelLabel> {
    let fullband = Seq::new(
        core.fullband_channel_order@.len(),
        |channel: int| dca_bed_label(core.fullband_channel_order@[channel]),
    );
    match core.lfe_channel {
        Some(_) => fullband.push(RChannelLabel::LFE),
        None => fullband,
    }
}

/// A core frame has one place per channel, none is shorter than the frame, and
/// its sizes fit.
pub open spec fn core_fits(core: &CoreFrame) -> bool {
    &&& core.sample_count <= u32::MAX
    &&& core.fullband_channels@.len() < u32::MAX
    &&& core.fullband_channel_order@.len() == core.fullband_channels@.len()
    &&& columns_reach(core_columns(core), core.sample_count as int)
    &&& core.sample_count * core_columns(core).len() <= isize::MAX / 8
}

/// Builds a bed frame from a plain DTS core frame.
pub fn build_core_frame(core: &CoreFrame) -> (frame: DecodedFrame)
    requires
        core_fits(core),
    ensures
        plays(
            frame,
            core.sample_rate,
            core.sample_count as int,
            core_columns(core),
            core_labels(core),
        ),
        frame.metadata@.len() == 0,
{
    let mut columns: Vec<Option<&Vec<i32>>> = Vec::new();
    let mut channel_labels: Vec<RChannelLabel> = Vec::new();
    let mut channel: usize = 0;
    let count: usize = core.fullband_channels.len();
    while channel < count
        invariant
            channel <= count,
            count == core.fullband_channels@.len() == core.fullband_channel_order@.len(),
            columns@.len() == channel,
            channel_labels@.len() == channel,
            forall|seen: int|
                0 <= seen < channel ==> {
                    &&& #[trigger] columns@[seen] is Some
                    &&& columns@[seen]->0@ == core.fullband_channels@[seen]@
                },
            forall|seen: int|
                0 <= seen < channel ==> #[trigger] channel_labels@[seen] == dca_bed_label(
                    core.fullband_channel_order@[seen],
                ),
        decreases count - channel,
    {
        columns.push(Some(&core.fullband_channels[channel]));
        channel_labels.push(dca_bed_channel_to_r(core.fullband_channel_order[channel]));
        channel = channel + 1;
    }
    if let Some(lfe) = core.lfe_channel.as_ref() {
        columns.push(Some(lfe));
        channel_labels.push(RChannelLabel::LFE);
    }
    assert(column_model(columns@) =~= core_columns(core));
    assert(channel_labels@ =~= core_labels(core));
    let pcm = interleave(&columns, core.sample_count);
    DecodedFrame {
        sampling_frequency: core.sample_rate,
        sample_count: core.sample_count as u32,
        channel_count: columns.len() as u32,
        pcm,
        channel_labels,
        metadata: Vec::new(),
        drc_ramp_duration: 0,
        dialogue_level: None,
        is_new_segment: false,
    }
}

/// The channel shape is kept: once a presentation has played, a frame whose
/// waveforms are missing plays with the same presentation, its bed unchanged
/// and its extension channels silent.
pub proof fn dropouts_keep_the_shape<M>(
    first: HdFrame,
    second: HdFrame,
    state: DtsXState<M>,
    presentation: XPresentation,
    index: int,
)
    requires
        frame_presentation(&first, &state) == Some(presentation),
        second.detected is None,
        0 <= index < presentation.feeds(),
    ensures
        frame_presentation(&second, &state_after(&first, state)) == Some(presentation),
        extended_columns(&second, presentation).take(bed_columns(&second).len() as int)
            == bed_columns(&second),
        extended_columns(&second, presentation)[bed_columns(&second).len() + index] is None,
{
    assert(extended_columns(&second, presentation).take(bed_columns(&second).len() as int)
        =~= bed_columns(&second));
}

/// Nothing plays twice: a waveform whose fold is not known, and which is
/// therefore still in the bed, is silent on its own channel.
pub proof fn unknown_feeds_are_silent(hd: HdFrame, presentation: XPresentation, index: int)
    requires
        0 <= index < presentation.feeds(),
        ({
            let feed = feed_of_channel(presentation, index);
            feed < hd.feed_known@.len() ==> !hd.feed_known@[feed]
        }),
    ensures
        extended_columns(&hd, presentation)[bed_columns(&hd).len() + index] is None,
{
}

/// Every waveform of a presentation plays on exactly one channel.
pub proof fn feeds_and_channels_match(presentation: XPresentation, feed: int)
    requires
        0 <= feed < presentation.feeds(),
    ensures
        exists|index: int|
            0 <= index < presentation.feeds() && #[trigger] feed_of_channel(presentation, index)
                == feed,
        forall|left: int, right: int|
            0 <= left < presentation.feeds() && 0 <= right < presentation.feeds()
                && #[trigger] feed_of_channel(presentation, left) == #[trigger] feed_of_channel(
                presentation,
                right,
            ) ==> left == right,
{
    let heights = presentation.heights().len() as int;
    let objects = presentation.objects();
    let index = if feed < objects {
        heights + feed
    } else {
        feed - objects
    };
    assert(feed_of_channel(presentation, index) == feed);
}

/// The speakers of a bed are in ascending order, and each has samples.
pub proof fn active_speakers_ascend(samples: Seq<Option<Vec<i32>>>)
    ensures
        forall|index: int|
            0 <= index < active_speakers(samples).len() ==> {
                let speaker = #[trigger] active_speakers(samples)[index];
                0 <= speaker < samples.len() && samples[speaker] is Some
            },
        forall|left: int, right: int|
            0 <= left < right < active_speakers(samples).len() ==> (#[trigger] active_speakers(
                samples,
            )[left]) < (#[trigger] active_speakers(samples)[right]),
{
    lemma_active_from(samples, 0);
}

} // verus!
