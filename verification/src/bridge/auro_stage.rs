//! Auro-3D over the DTS-HD MA path.
//!
//! A lossless DTS-HD track may be an Auro carrier: the low bits of its PCM then
//! fold a larger layout. Whether it is one is only known a few blocks in, so
//! the frames decoded so far are held back until the question is settled. If
//! the carrier is confirmed, the held frames are replayed into the unfolder and
//! every frame from then on is the unfolded layout. If it is not, the held
//! frames go out as they are and this stage steps aside for the rest of the
//! stream.

use crate::auro::layout::{layout_streams, presentation_of, Layout, Streams};
use crate::bridge::frame::{copied_pcm, pcm_sample, DecodedFrame};
use crate::bridge::labels::{auro_label, auro_stream_to_r, RChannelLabel};
use vstd::prelude::*;

verus! {

/// The bed stream that a DCA speaker plays as.
pub open spec fn stream_of_speaker(speaker: usize) -> u8 {
    match speaker {
        0 => 2,
        1 => 0,
        2 => 1,
        3 => 4,
        4 => 5,
        5 => 3,
        6 => 6,
        7 => 7,
        8 => 8,
        _ => 0xff,
    }
}

/// The bed stream that a DCA speaker plays as.
pub fn speaker_stream(speaker: usize) -> (stream: u8)
    ensures
        stream == stream_of_speaker(speaker),
{
    match speaker {
        0 => 2,
        1 => 0,
        2 => 1,
        3 => 4,
        4 => 5,
        5 => 3,
        6 => 6,
        7 => 7,
        8 => 8,
        _ => 0xff,
    }
}

/// A confirmed carrier.
#[derive(Debug, Clone, Copy, PartialEq, Eq, Structural)]
pub struct Detection {
    pub original: Layout,
    pub carrier: Layout,
    pub block_size: u16,
}

/// What the detector says of a frame: the carrier that it confirmed, and
/// whether any block has validated on the frame's speakers so far.
#[derive(Debug, Clone, Copy, PartialEq, Eq, Structural)]
pub struct Verdict {
    pub latched: Option<Detection>,
    pub any_block: bool,
}

/// Whether the detector is to see a frame, and over how many channels it is to
/// be set up before that.
#[derive(Debug, Clone, Copy, PartialEq, Eq, Structural)]
pub enum DetectionNeed {
    No,
    Yes { new_channels: Option<usize> },
}

/// Where the stage stands.
#[derive(Debug)]
pub enum Phase {
    /// The frames are held back until the carrier is confirmed or ruled out.
    Undecided {
        detector_channels: usize,
        held: Vec<DecodedFrame>,
        /// DCA speaker index of each of a held frame's channels.
        held_speakers: Vec<Vec<usize>>,
        held_samples: usize,
    },
    /// Every frame is the unfolded layout.
    Unfolding {
        /// DCA speaker index of each carrier channel, in unfolder order.
        speakers: Vec<usize>,
        outputs: Vec<u8>,
        labels: Vec<RChannelLabel>,
        /// What the unfolded presentation is called.
        presentation: String,
        sample_rate: u32,
    },
    /// The frames go out as they are.
    Plain,
}

/// How to set the unfolder up, and what to replay into it: of each held frame,
/// the samples of each carrier channel.
#[derive(Debug)]
pub struct UnfoldStart {
    pub carriers: Vec<u8>,
    pub outputs: Vec<u8>,
    pub block_size: u16,
    pub replay: Vec<Vec<Vec<i32>>>,
}

/// What becomes of a frame.
#[derive(Debug)]
pub enum Routed {
    /// It went out, and all that was held before it.
    Passed,
    /// It is held back.
    Held,
    /// It is to be unfolded.
    Unfold,
    /// The carrier is confirmed; this frame is among those to replay.
    Started(UnfoldStart),
}

/// The Auro stage of a DTS stream, for blocks of at most `max_block` samples.
#[derive(Debug)]
pub struct DtsAuroState {
    pub phase: Phase,
    pub max_block: usize,
}

/// The phase of a new stream.
pub open spec fn is_fresh(phase: Phase) -> bool {
    phase matches Phase::Undecided { detector_channels, held, held_speakers, held_samples } && {
        &&& detector_channels == 0
        &&& held@.len() == 0
        &&& held_speakers@.len() == 0
        &&& held_samples == 0
    }
}

/// Samples that may be held back: four of the largest blocks once a block has
/// validated, two before that.
pub open spec fn hold_limit(max_block: int, any_block: bool) -> int {
    if any_block {
        4 * max_block
    } else {
        2 * max_block
    }
}

/// Channel `index` of a frame.
pub open spec fn frame_column(frame: DecodedFrame, index: int) -> Seq<i32> {
    Seq::new(
        frame.sample_count as nat,
        |instant: int| frame.samples()[instant * frame.channel_count + index],
    )
}

/// Every frame has `width` channels, or no samples.
pub open spec fn frames_reach(frames: Seq<DecodedFrame>, width: int) -> bool {
    forall|index: int|
        0 <= index < frames.len() ==> (#[trigger] frames[index]).sample_count == 0
            || frames[index].channel_count >= width
}

/// Every frame holds what it says.
pub open spec fn frames_wf(frames: Seq<DecodedFrame>) -> bool {
    forall|index: int| 0 <= index < frames.len() ==> (#[trigger] frames[index]).wf()
}

/// `replay` is every frame's samples of each of `width` channels.
pub open spec fn replays(
    replay: Seq<Vec<Vec<i32>>>,
    frames: Seq<DecodedFrame>,
    width: int,
) -> bool {
    &&& replay.len() == frames.len()
    &&& forall|frame: int|
        0 <= frame < frames.len() ==> {
            &&& (#[trigger] replay[frame])@.len() == width
            &&& forall|index: int|
                0 <= index < width ==> (#[trigger] replay[frame]@[index])@ == frame_column(
                    frames[frame],
                    index,
                )
        }
}

/// The labels of unfolded streams.
pub open spec fn stream_labels(streams: Seq<u8>) -> Seq<RChannelLabel> {
    Seq::new(streams.len(), |index: int| auro_label(streams[index]))
}

/// The bed streams of speakers.
pub open spec fn speaker_streams(speakers: Seq<usize>) -> Seq<u8> {
    Seq::new(speakers.len(), |index: int| stream_of_speaker(speakers[index]))
}

/// The name of a presentation, empty where it has none.
pub open spec fn name_or_empty(layout: Layout) -> Seq<char> {
    match presentation_of(layout.0) {
        Some(name) => name,
        None => Seq::empty(),
    }
}

/// Largest speaker index of `speakers`, plus one; none for no speakers.
pub open spec fn channels_for(speakers: Seq<usize>) -> int
    decreases speakers.len(),
{
    if speakers.len() == 0 {
        0
    } else {
        let rest = channels_for(speakers.drop_last());
        if speakers.last() + 1 > rest {
            speakers.last() + 1
        } else {
            rest
        }
    }
}

/// Number of detector channels that speakers need.
fn channel_count_for(speakers: &Vec<usize>) -> (count: usize)
    requires
        forall|index: int| 0 <= index < speakers@.len() ==> #[trigger] speakers@[index] < usize::MAX,
    ensures
        count == channels_for(speakers@),
{
    let mut count: usize = 0;
    let mut index: usize = 0;
    while index < speakers.len()
        invariant
            index <= speakers@.len(),
            forall|index: int|
                0 <= index < speakers@.len() ==> #[trigger] speakers@[index] < usize::MAX,
            count == channels_for(speakers@.take(index as int)),
        decreases speakers.len() - index,
    {
        assert(speakers@.take(index + 1).drop_last() =~= speakers@.take(index as int));
        if speakers[index] + 1 > count {
            count = speakers[index] + 1;
        }
        index = index + 1;
    }
    assert(speakers@.take(index as int) =~= speakers@);
    count
}

/// Channel `index` of a frame.
fn column_of(frame: &DecodedFrame, index: usize) -> (column: Vec<i32>)
    requires
        frame.wf(),
        frame.sample_count == 0 || index < frame.channel_count,
    ensures
        column@ == frame_column(*frame, index as int),
{
    let mut column: Vec<i32> = Vec::new();
    let mut instant: u32 = 0;
    let mut offset: usize = index;
    let count: u32 = frame.sample_count;
    let width: usize = frame.channel_count as usize;
    assert(offset == 0 * width + index) by (nonlinear_arith)
        requires
            offset == index,
    ;
    let total: usize = crate::bridge::frame::pcm_len(&frame.pcm);
    while instant < count
        invariant
            instant <= count,
            count == frame.sample_count,
            width == frame.channel_count,
            frame.wf(),
            total == frame.samples().len(),
            frame.sample_count == 0 || index < width,
            instant < count ==> offset == instant * width + index,
            column@.len() == instant,
            forall|seen: int|
                0 <= seen < instant ==> #[trigger] column@[seen] == frame_column(
                    *frame,
                    index as int,
                )[seen],
        decreases count - instant,
    {
        assert(instant * width + index < count * width) by (nonlinear_arith)
            requires
                instant < count,
                index < width,
        ;
        column.push(pcm_sample(&frame.pcm, offset));
        instant = instant + 1;
        if instant < count {
            assert((instant - 1) * width + index + width == instant * width + index)
                by (nonlinear_arith)
                requires
                    instant >= 1,
            ;
            assert(instant * width + index < count * width) by (nonlinear_arith)
                requires
                    instant < count,
                    index < width,
            ;
            offset = offset + width;
        }
    }
    assert(column@ =~= frame_column(*frame, index as int));
    column
}

/// Of each frame, the samples of each of `width` channels.
fn replay_of(frames: &Vec<DecodedFrame>, width: usize) -> (replay: Vec<Vec<Vec<i32>>>)
    requires
        frames_wf(frames@),
        frames_reach(frames@, width as int),
    ensures
        replays(replay@, frames@, width as int),
{
    let mut replay: Vec<Vec<Vec<i32>>> = Vec::new();
    let mut frame: usize = 0;
    while frame < frames.len()
        invariant
            frame <= frames@.len(),
            frames_wf(frames@),
            frames_reach(frames@, width as int),
            replays(replay@, frames@.take(frame as int), width as int),
        decreases frames.len() - frame,
    {
        let mut columns: Vec<Vec<i32>> = Vec::new();
        let mut index: usize = 0;
        assert(frames@[frame as int].wf());
        while index < width
            invariant
                index <= width,
                frame < frames@.len(),
                frames@[frame as int].wf(),
                frames_reach(frames@, width as int),
                columns@.len() == index,
                forall|seen: int|
                    0 <= seen < index ==> (#[trigger] columns@[seen])@ == frame_column(
                        frames@[frame as int],
                        seen,
                    ),
            decreases width - index,
        {
            columns.push(column_of(&frames[frame], index));
            index = index + 1;
        }
        let ghost before = replay@;
        replay.push(columns);
        proof {
            assert forall|other: int| 0 <= other < frame + 1 implies {
                &&& (#[trigger] replay@[other])@.len() == width
                &&& forall|index: int|
                    0 <= index < width ==> (#[trigger] replay@[other]@[index])@ == frame_column(
                        frames@.take(frame + 1)[other],
                        index,
                    )
            } by {
                if other < frame {
                    assert(replay@[other] == before[other]);
                    assert(frames@.take(frame as int)[other] == frames@.take(frame + 1)[other]);
                }
            }
        }
        frame = frame + 1;
    }
    assert(frames@.take(frame as int) =~= frames@);
    replay
}

/// The labels of unfolded streams.
fn labels_of(streams: &Vec<u8>) -> (labels: Vec<RChannelLabel>)
    ensures
        labels@ == stream_labels(streams@),
{
    let mut labels: Vec<RChannelLabel> = Vec::new();
    let mut index: usize = 0;
    while index < streams.len()
        invariant
            index <= streams@.len(),
            labels@ == stream_labels(streams@).take(index as int),
        decreases streams.len() - index,
    {
        labels.push(auro_stream_to_r(streams[index]));
        assert(labels@ =~= stream_labels(streams@).take(index + 1));
        index = index + 1;
    }
    assert(labels@ =~= stream_labels(streams@));
    labels
}

/// The bed streams of speakers.
fn carriers_of(speakers: &Vec<usize>) -> (carriers: Vec<u8>)
    ensures
        carriers@ == speaker_streams(speakers@),
{
    let mut carriers: Vec<u8> = Vec::new();
    let mut index: usize = 0;
    while index < speakers.len()
        invariant
            index <= speakers@.len(),
            carriers@ == speaker_streams(speakers@).take(index as int),
        decreases speakers.len() - index,
    {
        carriers.push(speaker_stream(speakers[index]));
        assert(carriers@ =~= speaker_streams(speakers@).take(index + 1));
        index = index + 1;
    }
    assert(carriers@ =~= speaker_streams(speakers@));
    carriers
}

/// A copy of a list of ids.
fn copied_ids(ids: &[u8]) -> (copy: Vec<u8>)
    ensures
        copy@ == ids@,
{
    let mut copy: Vec<u8> = Vec::new();
    let mut index: usize = 0;
    while index < ids.len()
        invariant
            index <= ids@.len(),
            copy@ == ids@.take(index as int),
        decreases ids.len() - index,
    {
        copy.push(ids[index]);
        assert(copy@ =~= ids@.take(index + 1));
        index = index + 1;
    }
    assert(copy@ =~= ids@);
    copy
}

/// A copy of a list of speakers.
fn copied_speakers(speakers: &Vec<usize>) -> (copy: Vec<usize>)
    ensures
        copy@ == speakers@,
{
    let mut copy: Vec<usize> = Vec::new();
    let mut index: usize = 0;
    while index < speakers.len()
        invariant
            index <= speakers@.len(),
            copy@ == speakers@.take(index as int),
        decreases speakers.len() - index,
    {
        copy.push(speakers[index]);
        assert(copy@ =~= speakers@.take(index + 1));
        index = index + 1;
    }
    assert(copy@ =~= speakers@);
    copy
}

/// Whether the detector is to see a frame, and over how many channels it is set
/// up first.
pub open spec fn detection_prepared(
    before: DtsAuroState,
    after: DtsAuroState,
    frame: DecodedFrame,
    speakers: Seq<usize>,
    need: DetectionNeed,
) -> bool {
    match before.phase {
        Phase::Undecided { detector_channels, held, held_speakers, held_samples } => {
            let due = frame.channel_count == speakers.len();
            let new = if due && detector_channels == 0 {
                channels_for(speakers) as usize
            } else {
                detector_channels
            };
            &&& after.phase == (Phase::Undecided {
                detector_channels: new,
                held,
                held_speakers,
                held_samples,
            })
            &&& need == if !due {
                DetectionNeed::No
            } else if detector_channels == 0 {
                DetectionNeed::Yes { new_channels: Some(new) }
            } else {
                DetectionNeed::Yes { new_channels: None }
            }
        },
        _ => after.phase == before.phase && need == DetectionNeed::No,
    }
}

/// What the unfolder gave went out as one frame, where it was ready.
pub open spec fn unfolded_taken(
    stage: DtsAuroState,
    taken: Seq<i32>,
    ready: int,
    count: int,
    out_before: Seq<DecodedFrame>,
    out_after: Seq<DecodedFrame>,
) -> bool {
    match stage.phase {
        Phase::Unfolding { outputs, labels, sample_rate, .. } => if ready == 0 {
            out_after == out_before
        } else {
            let frame = out_after.last();
            &&& out_after.len() == out_before.len() + 1
            &&& out_after.drop_last() == out_before
            &&& frame.wf()
            &&& frame.plain_settings()
            &&& frame.sampling_frequency == sample_rate
            &&& frame.sample_count == count
            &&& frame.channel_count == outputs@.len()
            &&& frame.samples() == taken.take(count * outputs@.len())
            &&& frame.channel_labels@ == labels@
            &&& frame.metadata@.len() == 0
        },
        _ => out_after == out_before,
    }
}

/// What routing a frame does to the stage and returns.
pub open spec fn frame_routed(
    before: DtsAuroState,
    after: DtsAuroState,
    frame: DecodedFrame,
    speakers: Seq<usize>,
    verdict: Verdict,
    out_before: Seq<DecodedFrame>,
    out_after: Seq<DecodedFrame>,
    routed: Routed,
) -> bool {
    &&& after.max_block == before.max_block
    // No frame is lost or overtaken while nothing is unfolded.
    &&& routed is Passed || routed is Held ==> out_after + after.held_frames() =~= out_before
        + before.held_frames().push(frame)
    &&& match before.phase {
        Phase::Plain => {
            &&& routed is Passed
            &&& after.phase is Plain
            &&& out_after =~= out_before.push(frame)
        },
        Phase::Unfolding { .. } => {
            &&& routed is Unfold
            &&& after.phase == before.phase
            &&& out_after =~= out_before
        },
        Phase::Undecided { detector_channels, held, held_speakers, held_samples } => {
            let all = held@.push(frame);
            let due = frame.channel_count == speakers.len();
            let count = held_samples + frame.sample_count;
            if due && verdict.latched is Some && layout_streams(
                verdict.latched->0.original.0,
            ) is Some {
                let detection = verdict.latched->0;
                let streams = layout_streams(detection.original.0)->0;
                let first = before.first_speakers(speakers);
                &&& out_after =~= out_before
                &&& routed matches Routed::Started(start)
                &&& start.carriers@ == speaker_streams(first)
                &&& start.outputs@ == streams
                &&& start.block_size == detection.block_size
                &&& replays(start.replay@, all, first.len() as int)
                &&& after.phase matches Phase::Unfolding {
                    speakers: carriers,
                    outputs,
                    labels,
                    presentation,
                    sample_rate,
                }
                &&& carriers@ == first
                &&& outputs@ == streams
                &&& labels@ == stream_labels(streams)
                &&& presentation@ == name_or_empty(detection.original)
                &&& sample_rate == before.first_rate(frame)
            } else if due && verdict.latched is None && count <= hold_limit(
                before.max_block as int,
                verdict.any_block,
            ) {
                &&& routed is Held
                &&& out_after =~= out_before
                &&& after.phase matches Phase::Undecided {
                    detector_channels: channels,
                    held: now_held,
                    held_speakers: now_speakers,
                    held_samples: now_samples,
                }
                &&& channels == detector_channels
                &&& now_held@ =~= all
                &&& now_speakers@.len() == held_speakers@.len() + 1
                &&& now_speakers@.take(held_speakers@.len() as int) =~= held_speakers@
                &&& now_speakers@.last()@ == speakers
                &&& now_samples == count
            } else {
                &&& routed is Passed
                &&& after.phase is Plain
                &&& out_after =~= out_before + all
            }
        },
    }
}

/// The stage's phases, and what has come out, before the first frame of a run
/// and after each, where no carrier is ever confirmed.
pub struct PlainRun {
    pub states: Seq<DtsAuroState>,
    pub outs: Seq<Seq<DecodedFrame>>,
    pub frames: Seq<DecodedFrame>,
    pub speakers: Seq<Seq<usize>>,
    pub verdicts: Seq<Verdict>,
    pub routes: Seq<Routed>,
}

/// Frame `index` of a run leads from one state to the next. Preparing its
/// detection may have come between, which leaves the held frames alone.
pub open spec fn run_step(run: PlainRun, index: int) -> bool {
    exists|prepared: DtsAuroState|
        {
            &&& same_hold(run.states[index], prepared)
            &&& #[trigger] frame_routed(
                prepared,
                run.states[index + 1],
                run.frames[index],
                run.speakers[index],
                run.verdicts[index],
                run.outs[index],
                run.outs[index + 1],
                run.routes[index],
            )
        }
}

/// Two states differ at most in the channels that the detector is set up for.
pub open spec fn same_hold(left: DtsAuroState, right: DtsAuroState) -> bool {
    &&& left.max_block == right.max_block
    &&& left.held_frames() == right.held_frames()
    &&& left.held_count() == right.held_count()
    &&& left.phase is Undecided == right.phase is Undecided
    &&& left.phase is Plain == right.phase is Plain
}

/// Number of samples of the first `count` frames.
pub open spec fn samples_routed(frames: Seq<DecodedFrame>, count: int) -> int
    decreases count,
{
    if count <= 0 {
        0
    } else {
        samples_routed(frames, count - 1) + frames[count - 1].sample_count
    }
}

/// A run of frames over a new stage, into an empty list, in which no carrier is
/// confirmed and every frame has just its bed's channels.
pub open spec fn is_plain_run(run: PlainRun) -> bool {
    let count = run.frames.len();
    &&& run.states.len() == count + 1
    &&& run.outs.len() == count + 1
    &&& run.speakers.len() == count
    &&& run.verdicts.len() == count
    &&& run.routes.len() == count
    &&& is_fresh(run.states[0].phase)
    &&& run.outs[0].len() == 0
    &&& forall|index: int|
        0 <= index < count ==> {
            &&& #[trigger] run_step(run, index)
            &&& run.verdicts[index].latched is None
            &&& run.frames[index].channel_count == run.speakers[index].len()
        }
}

impl DtsAuroState {
    /// The stage holds whole frames, and its limits fit their type.
    pub open spec fn wf(&self) -> bool {
        &&& 4 * self.max_block <= usize::MAX
        &&& self.phase matches Phase::Undecided { held, held_speakers, .. } ==> {
            &&& held@.len() == held_speakers@.len()
            &&& frames_wf(held@)
        }
    }

    /// The frames that are held back, in order.
    pub open spec fn held_frames(&self) -> Seq<DecodedFrame> {
        match self.phase {
            Phase::Undecided { held, .. } => held@,
            _ => Seq::empty(),
        }
    }

    /// Samples that are held back.
    pub open spec fn held_count(&self) -> int {
        match self.phase {
            Phase::Undecided { held_samples, .. } => held_samples as int,
            _ => 0,
        }
    }

    /// The speakers of the first frame that is held once `speakers` are held
    /// too.
    pub open spec fn first_speakers(&self, speakers: Seq<usize>) -> Seq<usize> {
        match self.phase {
            Phase::Undecided { held_speakers, .. } => if held_speakers@.len() > 0 {
                held_speakers@[0]@
            } else {
                speakers
            },
            _ => speakers,
        }
    }

    /// The sampling rate of the first frame that is held once `frame` is held
    /// too.
    pub open spec fn first_rate(&self, frame: DecodedFrame) -> u32 {
        self.held_frames().push(frame)[0].sampling_frequency
    }

    /// The stage of a new stream.
    pub fn new(max_block: usize) -> (state: Self)
        requires
            4 * max_block <= usize::MAX,
        ensures
            is_fresh(state.phase),
            state.max_block == max_block,
            state.wf(),
    {
        DtsAuroState {
            phase: Phase::Undecided {
                detector_channels: 0,
                held: Vec::new(),
                held_speakers: Vec::new(),
                held_samples: 0,
            },
            max_block,
        }
    }

    /// Starts over, for a new stream.
    pub fn reset(&mut self)
        requires
            old(self).wf(),
        ensures
            is_fresh(final(self).phase),
            final(self).max_block == old(self).max_block,
            final(self).wf(),
    {
        *self = DtsAuroState::new(self.max_block);
    }

    /// Whether the carrier is confirmed.
    pub fn is_unfolding(&self) -> (unfolding: bool)
        ensures
            unfolding == self.phase is Unfolding,
    {
        match &self.phase {
            Phase::Unfolding { .. } => true,
            _ => false,
        }
    }

    /// What the unfolded presentation is called - `Auro 11.1` - or empty while
    /// the carrier is still undecided, once it has been ruled out, or for a
    /// layout with no Auro name.
    pub fn presentation_name(&self) -> (name: &str)
        ensures
            name@ == match self.phase {
                Phase::Unfolding { presentation, .. } => presentation@,
                _ => Seq::<char>::empty(),
            },
    {
        match &self.phase {
            Phase::Unfolding { presentation, .. } => presentation.as_str(),
            _ => {
                proof {
                    reveal_strlit("");
                }
                assert(""@ =~= Seq::<char>::empty());
                ""
            },
        }
    }

    /// Whether the detector is to see this frame before it is routed, and over
    /// how many channels it is to be set up first.
    ///
    /// A frame with more channels than its bed carries a DTS:X presentation,
    /// which no Auro carrier does.
    pub fn prepare_detection(&mut self, frame: &DecodedFrame, speakers: &Vec<usize>) -> (need:
        DetectionNeed)
        requires
            old(self).wf(),
            forall|index: int|
                0 <= index < speakers@.len() ==> #[trigger] speakers@[index] < usize::MAX,
        ensures
            final(self).wf(),
            final(self).max_block == old(self).max_block,
            same_hold(*old(self), *final(self)),
            detection_prepared(*old(self), *final(self), *frame, speakers@, need),
    {
        match &mut self.phase {
            Phase::Undecided { detector_channels, .. } => {
                if frame.channel_count as usize != speakers.len() {
                    return DetectionNeed::No;
                }
                if *detector_channels == 0 {
                    let count: usize = channel_count_for(speakers);
                    *detector_channels = count;
                    DetectionNeed::Yes { new_channels: Some(count) }
                } else {
                    DetectionNeed::Yes { new_channels: None }
                }
            },
            _ => DetectionNeed::No,
        }
    }

    /// The place of `speaker` among the carriers that are unfolded.
    pub fn carrier_index(&self, speaker: usize) -> (index: Option<usize>)
        ensures
            match self.phase {
                Phase::Unfolding { speakers, .. } => match index {
                    Some(found) => {
                        &&& found < speakers@.len()
                        &&& speakers@[found as int] == speaker
                        &&& forall|before: int| 0 <= before < found ==> speakers@[before] != speaker
                    },
                    None => !speakers@.contains(speaker),
                },
                _ => index is None,
            },
    {
        match &self.phase {
            Phase::Unfolding { speakers, .. } => {
                let mut index: usize = 0;
                while index < speakers.len()
                    invariant
                        index <= speakers@.len(),
                        forall|before: int| 0 <= before < index ==> speakers@[before] != speaker,
                        self.phase matches Phase::Unfolding { speakers: all, .. } && all
                            == *speakers,
                    decreases speakers.len() - index,
                {
                    if speakers[index] == speaker {
                        return Some(index);
                    }
                    index = index + 1;
                }
                None
            },
            _ => None,
        }
    }

    /// Takes the frames that are held back out, and steps aside.
    fn give_up(&mut self, out: &mut Vec<DecodedFrame>)
        requires
            old(self).wf(),
            old(self).phase is Undecided,
        ensures
            final(self).phase is Plain,
            final(self).max_block == old(self).max_block,
            final(out)@ == old(out)@ + old(self).held_frames(),
    {
        if let Phase::Undecided { held, .. } = &mut self.phase {
            out.append(held);
        }
        self.phase = Phase::Plain;
    }

    /// A frame without lossless output cannot be a carrier.
    pub fn not_a_carrier(&mut self, out: &mut Vec<DecodedFrame>)
        requires
            old(self).wf(),
        ensures
            final(self).wf(),
            final(self).max_block == old(self).max_block,
            final(out)@ == old(out)@ + old(self).held_frames(),
            final(self).held_frames().len() == 0,
            final(self).phase == if old(self).phase is Undecided {
                Phase::Plain
            } else {
                old(self).phase
            },
    {
        let undecided: bool = match &self.phase {
            Phase::Undecided { .. } => true,
            _ => false,
        };
        if undecided {
            self.give_up(out);
        } else {
            assert(out@ =~= old(out)@ + old(self).held_frames());
        }
    }

    /// Takes the confirmed carrier up: the held frames are to be replayed into
    /// an unfolder. A layout without a known stream list stays as it is.
    fn start_unfolding(&mut self, detection: Detection, out: &mut Vec<DecodedFrame>) -> (routed:
        Routed)
        requires
            old(self).wf(),
            old(self).phase is Undecided,
            old(self).held_frames().len() > 0,
            frames_reach(
                old(self).held_frames(),
                old(self).first_speakers(Seq::empty()).len() as int,
            ),
        ensures
            final(self).max_block == old(self).max_block,
            final(self).wf(),
            match layout_streams(detection.original.0) {
                None => {
                    &&& routed is Passed
                    &&& final(self).phase is Plain
                    &&& final(out)@ == old(out)@ + old(self).held_frames()
                },
                Some(streams) => {
                    let first = old(self).first_speakers(Seq::empty());
                    &&& final(out)@ == old(out)@
                    &&& routed matches Routed::Started(start)
                    &&& start.carriers@ == speaker_streams(first)
                    &&& start.outputs@ == streams
                    &&& start.block_size == detection.block_size
                    &&& replays(start.replay@, old(self).held_frames(), first.len() as int)
                    &&& final(self).phase matches Phase::Unfolding {
                        speakers,
                        outputs,
                        labels,
                        presentation,
                        sample_rate,
                    }
                    &&& speakers@ == first
                    &&& outputs@ == streams
                    &&& labels@ == stream_labels(streams)
                    &&& presentation@ == name_or_empty(detection.original)
                    &&& sample_rate == old(self).held_frames()[0].sampling_frequency
                },
            },
    {
        let streams: Streams = match detection.original.streams() {
            Some(streams) => streams,
            None => {
                self.give_up(out);
                return Routed::Passed;
            },
        };
        let outputs: Vec<u8> = copied_ids(streams.as_slice());
        let presentation: String = match detection.original.presentation_name() {
            Some(name) => name,
            None => {
                let name: String = String::new();
                assert(name@ =~= Seq::<char>::empty());
                name
            },
        };
        let next = match &self.phase {
            Phase::Undecided { held, held_speakers, .. } => {
                let speakers: Vec<usize> = copied_speakers(&held_speakers[0]);
                let start = UnfoldStart {
                    carriers: carriers_of(&speakers),
                    outputs: copied_ids(outputs.as_slice()),
                    block_size: detection.block_size,
                    replay: replay_of(held, speakers.len()),
                };
                let phase = Phase::Unfolding {
                    speakers,
                    labels: labels_of(&outputs),
                    outputs,
                    presentation,
                    sample_rate: held[0].sampling_frequency,
                };
                Some((phase, start))
            },
            _ => None,
        };
        match next {
            Some((phase, start)) => {
                self.phase = phase;
                Routed::Started(start)
            },
            None => Routed::Passed,
        }
    }

    /// Routes one built DTS-HD frame, whose channels are the lossless bed in
    /// the order of `speakers`. Whatever can go out now is appended to `out`.
    ///
    /// `verdict` is what the detector says once it has seen the frame, where
    /// the stage asked for that.
    pub fn route(
        &mut self,
        frame: DecodedFrame,
        speakers: &Vec<usize>,
        verdict: Verdict,
        out: &mut Vec<DecodedFrame>,
    ) -> (routed: Routed)
        requires
            old(self).wf(),
            frame.wf(),
            old(self).held_count() + frame.sample_count <= usize::MAX,
            old(self).phase is Undecided && frame.channel_count == speakers@.len()
                && verdict.latched is Some ==> frames_reach(
                old(self).held_frames().push(frame),
                old(self).first_speakers(speakers@).len() as int,
            ),
        ensures
            final(self).wf(),
            final(self).max_block == old(self).max_block,
            frame_routed(
                *old(self),
                *final(self),
                frame,
                speakers@,
                verdict,
                old(out)@,
                final(out)@,
                routed,
            ),
    {
        match &mut self.phase {
            Phase::Plain => {
                out.push(frame);
                return Routed::Passed;
            },
            Phase::Unfolding { .. } => {
                return Routed::Unfold;
            },
            Phase::Undecided { held, held_speakers, held_samples, .. } => {
                if frame.channel_count as usize == speakers.len() {
                    let count: usize = frame.sample_count as usize;
                    held.push(frame);
                    held_speakers.push(copied_speakers(speakers));
                    *held_samples = *held_samples + count;
                } else {
                    self.give_up(out);
                    out.push(frame);
                    assert(out@ =~= old(out)@ + old(self).held_frames().push(frame));
                    return Routed::Passed;
                }
            },
        }
        let ghost held = self.held_frames();
        assert(held == old(self).held_frames().push(frame));
        assert(frames_wf(held));
        if let Some(detection) = verdict.latched {
            return self.start_unfolding(detection, out);
        }
        let limit: usize = if verdict.any_block {
            4 * self.max_block
        } else {
            2 * self.max_block
        };
        let full: bool = match &self.phase {
            Phase::Undecided { held_samples, .. } => *held_samples > limit,
            _ => false,
        };
        if full {
            self.give_up(out);
            return Routed::Passed;
        }
        Routed::Held
    }

    /// Appends the frame that the unfolder gave: `count` instants of its
    /// outputs, out of the `ready` ones that were asked for.
    pub fn drain(
        &self,
        taken: &Vec<i32>,
        ready: usize,
        count: usize,
        out: &mut Vec<DecodedFrame>,
    )
        requires
            self.phase matches Phase::Unfolding { outputs, labels, .. } ==> {
                &&& labels@.len() == outputs@.len()
                &&& count * outputs@.len() <= taken@.len()
                &&& outputs@.len() <= u32::MAX
            },
            count <= u32::MAX,
            taken@.len() <= isize::MAX / 8,
        ensures
            unfolded_taken(*self, taken@, ready as int, count as int, old(out)@, final(out)@),
    {
        if ready == 0 {
            return;
        }
        if let Phase::Unfolding { outputs, labels, sample_rate, .. } = &self.phase {
            let width: usize = outputs.len();
            assert(0 <= count * width) by (nonlinear_arith);
            let total: usize = count * width;
            let mut samples: Vec<i32> = Vec::new();
            let mut index: usize = 0;
            while index < total
                invariant
                    index <= total <= taken@.len(),
                    samples@ == taken@.take(index as int),
                decreases total - index,
            {
                samples.push(taken[index]);
                assert(samples@ =~= taken@.take(index + 1));
                index = index + 1;
            }
            let mut channel_labels: Vec<RChannelLabel> = Vec::new();
            let mut channel: usize = 0;
            while channel < labels.len()
                invariant
                    channel <= labels@.len(),
                    channel_labels@ == labels@.take(channel as int),
                decreases labels.len() - channel,
            {
                channel_labels.push(labels[channel]);
                assert(channel_labels@ =~= labels@.take(channel + 1));
                channel = channel + 1;
            }
            assert(labels@.take(channel as int) =~= labels@);
            let frame = DecodedFrame {
                sampling_frequency: *sample_rate,
                sample_count: count as u32,
                channel_count: width as u32,
                pcm: copied_pcm(&samples),
                channel_labels,
                metadata: Vec::new(),
                drc_ramp_duration: 0,
                dialogue_level: None,
                is_new_segment: false,
            };
            out.push(frame);
            assert(out@.drop_last() =~= old(out)@);
        }
    }
}

/// Where a run without a carrier stands after `count` frames.
proof fn lemma_plain_run(run: PlainRun, count: int)
    requires
        is_plain_run(run),
        0 <= count <= run.frames.len(),
    ensures
        run.states[count].max_block == run.states[0].max_block,
        !(run.states[count].phase is Unfolding),
        run.outs[count] + run.states[count].held_frames() == run.frames.take(count),
        run.states[count].phase is Undecided ==> {
            &&& run.outs[count].len() == 0
            &&& run.states[count].held_count() == samples_routed(run.frames, count)
            &&& count > 0 ==> samples_routed(run.frames, count) <= 4 * run.states[0].max_block
        },
    decreases count,
{
    if count == 0 {
        assert(run.outs[0] + run.states[0].held_frames() =~= run.frames.take(0));
    } else {
        lemma_plain_run(run, count - 1);
        assert(run_step(run, count - 1));
        let prepared = choose|prepared: DtsAuroState|
            {
                &&& same_hold(run.states[count - 1], prepared)
                &&& #[trigger] frame_routed(
                    prepared,
                    run.states[count],
                    run.frames[count - 1],
                    run.speakers[count - 1],
                    run.verdicts[count - 1],
                    run.outs[count - 1],
                    run.outs[count],
                    run.routes[count - 1],
                )
            };
        let held = prepared.held_frames();
        let frame = run.frames[count - 1];
        assert(run.frames.take(count) =~= run.frames.take(count - 1).push(frame));
        assert(run.outs[count - 1] + held.push(frame) =~= (run.outs[count - 1] + held).push(frame));
    }
}

/// Without a carrier, every frame comes out as it is, once and in order: what
/// has come out and what is still held are always the frames so far. Once more
/// than the hold limit has been routed nothing is held any more, and the stage
/// has no presentation to name.
pub proof fn plain_frames_come_out_in_order(run: PlainRun)
    requires
        is_plain_run(run),
    ensures
        ({
            let count = run.frames.len() as int;
            let last = run.states[count];
            &&& !(last.phase is Unfolding)
            &&& run.outs[count] + last.held_frames() == run.frames
            &&& samples_routed(run.frames, count) > 4 * run.states[0].max_block ==> {
                &&& last.phase is Plain
                &&& run.outs[count] == run.frames
            }
        }),
{
    let count = run.frames.len() as int;
    lemma_plain_run(run, count);
    assert(run.frames.take(count) =~= run.frames);
    if run.states[count].phase is Plain {
        assert(run.outs[count] + run.states[count].held_frames() =~= run.outs[count]);
    }
}

} // verus!
