//! State that the rebuilding of objects carries from frame to frame, and how
//! the mixing matrix of each timeslot comes about.

use crate::eac3::frame::{copied, find_channel, place_of, samples_of, CoreModel, CorePcmFrame};
use crate::eac3::joc::{
    decode_parameter_points, no_gain, object_fits, offsets_after, point_decoded, point_written,
    points_result,
    Gain, SubbandMatrix, QMF_SUBBANDS,
};
use crate::eac3::qmf::{QuadratureMirrorFilterBank, FORWARD_WINDOW, INVERSE_WINDOW};
use crate::eac3::types::{BedChannel, JocObject, JocPayload, ParseError};
use vstd::prelude::*;

verus! {

/// Most channels that a JOC downmix has.
pub const JOC_INPUT_CHANNELS: usize = 7;

/// The channels of a JOC downmix, in order.
pub open spec fn joc_input(index: int) -> BedChannel {
    if index == 0 {
        BedChannel::FrontLeft
    } else if index == 1 {
        BedChannel::FrontRight
    } else if index == 2 {
        BedChannel::Center
    } else if index == 3 {
        BedChannel::SurroundLeft
    } else if index == 4 {
        BedChannel::SurroundRight
    } else if index == 5 {
        BedChannel::RearLeft
    } else {
        BedChannel::RearRight
    }
}

/// The channel of a JOC downmix.
fn joc_input_channel(index: usize) -> (channel: BedChannel)
    ensures
        channel == joc_input(index as int),
{
    match index {
        0 => BedChannel::FrontLeft,
        1 => BedChannel::FrontRight,
        2 => BedChannel::Center,
        3 => BedChannel::SurroundLeft,
        4 => BedChannel::SurroundRight,
        5 => BedChannel::RearLeft,
        _ => BedChannel::RearRight,
    }
}

/// The core channel that feeds a channel of the downmix: the same one, or for a
/// missing rear channel the surround channel of its side.
pub open spec fn input_place(order: Seq<BedChannel>, channel: BedChannel) -> Option<int> {
    match place_of(order, channel, 0) {
        Some(place) => Some(place),
        None => if channel == BedChannel::RearLeft {
            place_of(order, BedChannel::SurroundLeft, 0)
        } else if channel == BedChannel::RearRight {
            place_of(order, BedChannel::SurroundRight, 0)
        } else {
            None
        },
    }
}

/// Whether a core feeds each of the first `count` channels of the downmix.
pub open spec fn feeds_downmix(order: Seq<BedChannel>, count: int) -> bool {
    forall|index: int|
        0 <= index < count ==> input_place(order, #[trigger] joc_input(index)) is Some
}

/// The error of a core that does not feed the downmix.
pub open spec fn input_layout_error() -> ParseError {
    ParseError::UnsupportedFeature("joc-input-layout")
}

/// The core channel that feeds a channel of the downmix.
fn resolve_joc_input_channel_index(order: &Vec<BedChannel>, channel: BedChannel) -> (place: Option<
    usize,
>)
    ensures
        match place {
            Some(place) => input_place(order@, channel) == Some(place as int) && place
                < order@.len(),
            None => input_place(order@, channel) is None,
        },
{
    match find_channel(order, channel) {
        Some(place) => Some(place),
        None => match channel {
            BedChannel::RearLeft => find_channel(order, BedChannel::SurroundLeft),
            BedChannel::RearRight => find_channel(order, BedChannel::SurroundRight),
            _ => None,
        },
    }
}

/// The core channels that feed the first `channel_count` channels of the
/// downmix.
pub fn map_input_channel_indices<S>(core: &CorePcmFrame<S>, channel_count: usize) -> (result:
    Result<Vec<usize>, ParseError>)
    requires
        channel_count <= JOC_INPUT_CHANNELS,
    ensures
        match result {
            Ok(indices) => {
                &&& feeds_downmix(core@.order, channel_count as int)
                &&& indices@.len() == channel_count
                &&& forall|index: int|
                    0 <= index < channel_count ==> input_place(core@.order, joc_input(index))
                        == Some(#[trigger] indices@[index] as int)
            },
            Err(error) => {
                &&& !feeds_downmix(core@.order, channel_count as int)
                &&& error == input_layout_error()
            },
        },
{
    let mut indices: Vec<usize> = Vec::new();
    let mut index: usize = 0;
    while index < channel_count
        invariant
            index <= channel_count,
            indices@.len() == index,
            forall|seen: int|
                0 <= seen < index ==> input_place(core@.order, joc_input(seen)) == Some(
                    #[trigger] indices@[seen] as int,
                ),
            feeds_downmix(core@.order, index as int),
        decreases channel_count - index,
    {
        match resolve_joc_input_channel_index(
            &core.fullband_channel_order,
            joc_input_channel(index),
        ) {
            Some(place) => {
                indices.push(place);
            },
            None => {
                assert(input_place(core@.order, joc_input(index as int)) is None);
                return Err(ParseError::UnsupportedFeature("joc-input-layout"));
            },
        }
        index = index + 1;
    }
    Ok(indices)
}

/// A matrix that a timeslot's matrix is made from.
#[derive(Debug, Clone, Copy, PartialEq, Eq, Structural)]
pub enum MixSource {
    /// The last matrix of the frame before.
    Previous,
    /// The first data point of this frame.
    First,
    /// The second data point of this frame.
    Second,
}

/// The mixing matrix of a timeslot.
#[derive(Debug, Clone, Copy, PartialEq, Eq, Structural)]
pub enum SlotMix {
    /// No gain at all.
    Silent,
    /// `from` plus `numerator / denominator` of the way to `to`.
    Blend { from: MixSource, to: MixSource, numerator: usize, denominator: usize },
}

/// A matrix as it is.
pub open spec fn hold(source: MixSource) -> SlotMix {
    SlotMix::Blend { from: source, to: source, numerator: 1, denominator: 1 }
}

/// The last data point of an object.
pub open spec fn last_point(object: JocObject) -> MixSource {
    if object.data_points == 1 {
        MixSource::First
    } else {
        MixSource::Second
    }
}

/// Number of timeslots in the first half of a frame with two data points.
pub open spec fn first_half(timeslots: int) -> int {
    if timeslots >= 2 {
        timeslots / 2
    } else {
        1
    }
}

/// The mixing matrix of timeslot `slot`.
///
/// A steep object switches at the transmitted offsets: from the previous matrix
/// to the first data point, and from that to the second where there is one. A
/// smooth object goes from each of them to the next in even steps.
pub open spec fn slot_mix(
    object: JocObject,
    offsets: Seq<u8>,
    timeslots: int,
    slot: int,
) -> SlotMix {
    let half = first_half(timeslots);
    if !object.active {
        SlotMix::Silent
    } else if object.steep_slope {
        if slot < offsets[0] {
            hold(MixSource::Previous)
        } else if object.data_points == 1 || slot < offsets[1] {
            hold(MixSource::First)
        } else {
            hold(MixSource::Second)
        }
    } else if object.data_points == 1 {
        SlotMix::Blend {
            from: MixSource::Previous,
            to: MixSource::First,
            numerator: (slot + 1) as usize,
            denominator: timeslots as usize,
        }
    } else if slot < half {
        SlotMix::Blend {
            from: MixSource::Previous,
            to: MixSource::First,
            numerator: (slot + 1) as usize,
            denominator: half as usize,
        }
    } else {
        SlotMix::Blend {
            from: MixSource::First,
            to: MixSource::Second,
            numerator: (slot + 1 - half) as usize,
            denominator: (timeslots - half) as usize,
        }
    }
}

/// An active object has one data point or two.
pub open spec fn points_fit(object: JocObject) -> bool {
    object.active ==> 1 <= object.data_points <= 2
}

/// The sizes that object `index` of a payload is rebuilt within.
pub open spec fn object_plays(objects: Seq<JocObject>, channel_count: usize, index: int) -> bool {
    &&& object_fits(objects[index], channel_count, channel_count as int)
    &&& points_result(objects[index], channel_count) is Ok ==> points_fit(objects[index])
}

/// The sizes that the objects of a payload are rebuilt within, up to one in
/// error.
pub open spec fn objects_play<G>(joc: JocPayload<G>) -> bool {
    forall|index: int|
        0 <= index < joc.object_count && index < joc.objects@.len() && index <= error_place(
            joc.objects@,
            joc.channel_count,
            joc.object_count as int,
            0,
        ) ==> #[trigger] object_plays(joc.objects@, joc.channel_count, index)
}

/// The mixing matrices of all timeslots of a frame.
pub fn build_object_timeslots(
    object: &JocObject,
    timeslot_offsets: [u8; 2],
    timeslots: usize,
) -> (slots: Vec<SlotMix>)
    requires
        points_fit(*object),
        timeslots < usize::MAX,
    ensures
        slots@.len() == timeslots,
        forall|slot: int|
            0 <= slot < timeslots ==> #[trigger] slots@[slot] == slot_mix(
                *object,
                timeslot_offsets@,
                timeslots as int,
                slot,
            ),
{
    let half: usize = if timeslots >= 2 {
        timeslots / 2
    } else {
        1
    };
    let first_offset: usize = timeslot_offsets[0] as usize;
    let second_offset: usize = timeslot_offsets[1] as usize;
    let mut slots: Vec<SlotMix> = Vec::new();
    let mut slot: usize = 0;
    while slot < timeslots
        invariant
            slot <= timeslots < usize::MAX,
            points_fit(*object),
            half == first_half(timeslots as int),
            first_offset == timeslot_offsets@[0],
            second_offset == timeslot_offsets@[1],
            slots@.len() == slot,
            forall|seen: int|
                0 <= seen < slot ==> #[trigger] slots@[seen] == slot_mix(
                    *object,
                    timeslot_offsets@,
                    timeslots as int,
                    seen,
                ),
        decreases timeslots - slot,
    {
        let mix: SlotMix = if !object.active {
            SlotMix::Silent
        } else if object.steep_slope {
            let source: MixSource = if slot < first_offset {
                MixSource::Previous
            } else if object.data_points == 1 || slot < second_offset {
                MixSource::First
            } else {
                MixSource::Second
            };
            SlotMix::Blend { from: source, to: source, numerator: 1, denominator: 1 }
        } else if object.data_points == 1 {
            SlotMix::Blend {
                from: MixSource::Previous,
                to: MixSource::First,
                numerator: slot + 1,
                denominator: timeslots,
            }
        } else if slot < half {
            SlotMix::Blend {
                from: MixSource::Previous,
                to: MixSource::First,
                numerator: slot + 1,
                denominator: half,
            }
        } else {
            SlotMix::Blend {
                from: MixSource::First,
                to: MixSource::Second,
                numerator: slot + 1 - half,
                denominator: timeslots - half,
            }
        };
        slots.push(mix);
        slot = slot + 1;
    }
    slots
}

/// A smooth frame of at least two timeslots ends on its last data point, which
/// is the matrix that the next frame starts from, and never goes beyond the
/// matrix it is on the way to.
pub proof fn smooth_frames_end_on_the_last_point(
    object: JocObject,
    offsets: Seq<u8>,
    timeslots: int,
    slot: int,
)
    requires
        object.active,
        !object.steep_slope,
        points_fit(object),
        2 <= timeslots <= usize::MAX,
        0 <= slot < timeslots,
    ensures
        slot_mix(object, offsets, timeslots, slot) matches SlotMix::Blend {
            numerator,
            denominator,
            ..
        } && 1 <= numerator <= denominator,
        slot_mix(object, offsets, timeslots, timeslots - 1) matches SlotMix::Blend {
            to,
            numerator,
            denominator,
            ..
        } && to == last_point(object) && numerator == denominator,
{
}

/// A steep frame with one data point never reaches for a second one.
pub proof fn single_points_reach_for_no_second(
    object: JocObject,
    offsets: Seq<u8>,
    timeslots: int,
    slot: int,
)
    requires
        object.data_points == 1,
    ensures
        slot_mix(object, offsets, timeslots, slot) matches SlotMix::Blend { from, to, .. } ==> from
            != MixSource::Second && to != MixSource::Second,
{
}

/// How an object is mixed in a frame: the matrix it starts from, those of its
/// data points, and the timeslots.
#[derive(Debug)]
pub struct ObjectMix {
    pub previous: SubbandMatrix,
    pub points: [SubbandMatrix; 2],
    pub slots: Vec<SlotMix>,
}

/// How a frame is rebuilt: the core channels that feed it, and its timeslots.
/// How its objects are mixed is in the state.
#[derive(Debug)]
pub struct FramePlan {
    pub input_indices: Vec<usize>,
    pub timeslots: usize,
}

/// State of the rebuilding of objects.
#[derive(Debug)]
pub struct JocObjectDecoderState<S> {
    pub silence: S,
    pub prev_matrix: Vec<SubbandMatrix>,
    pub mix_matrix: Vec<[SubbandMatrix; 2]>,
    pub timeslot_offsets: Vec<[u8; 2]>,
    pub forward_qmf: Vec<QuadratureMirrorFilterBank<S>>,
    pub inverse_qmf: Vec<QuadratureMirrorFilterBank<S>>,
    /// Whether an object's synthesis has been fed.
    pub inverse_history: Vec<bool>,
    /// How the objects of the most recent frame were mixed.
    pub last_frame: Vec<ObjectMix>,
}

/// A matrix without gains.
pub open spec fn is_silent_matrix(matrix: Seq<[Gain; 64]>) -> bool {
    forall|channel: int, subband: int|
        0 <= channel < matrix.len() && 0 <= subband < 64 ==> #[trigger] matrix[channel]@[subband]
            == no_gain()
}

/// `after` is `before` over `channel_count` channels: the channels that both
/// have are kept, further ones have no gains.
pub open spec fn matrix_resized(
    before: Seq<[Gain; 64]>,
    after: Seq<[Gain; 64]>,
    channel_count: int,
) -> bool {
    &&& after.len() == channel_count
    &&& forall|channel: int|
        0 <= channel < channel_count && channel < before.len() ==> #[trigger] after[channel]
            == before[channel]
    &&& forall|channel: int, subband: int|
        before.len() <= channel < channel_count && 0 <= subband < 64
            ==> #[trigger] after[channel]@[subband] == no_gain()
}

/// Brings a matrix to `channel_count` channels.
fn resize_matrix(matrix: &mut SubbandMatrix, channel_count: usize)
    ensures
        matrix_resized(old(matrix)@, final(matrix)@, channel_count as int),
{
    if matrix.len() > channel_count {
        matrix.truncate(channel_count);
    }
    while matrix.len() < channel_count
        invariant
            matrix@.len() <= channel_count,
            forall|channel: int|
                0 <= channel < matrix@.len() && channel < old(matrix)@.len()
                    ==> #[trigger] matrix@[channel] == old(matrix)@[channel],
            forall|channel: int, subband: int|
                old(matrix)@.len() <= channel < matrix@.len() && 0 <= subband < 64
                    ==> #[trigger] matrix@[channel]@[subband] == no_gain(),
            old(matrix)@.len() <= matrix@.len() || matrix@.len() == channel_count,
        decreases channel_count - matrix@.len(),
    {
        matrix.push([Gain { steps: 0, table: 0 }; 64]);
    }
}

/// A matrix of `channel_count` channels without gains.
fn silent_matrix(channel_count: usize) -> (matrix: SubbandMatrix)
    ensures
        matrix@.len() == channel_count,
        is_silent_matrix(matrix@),
{
    let mut matrix: SubbandMatrix = Vec::new();
    resize_matrix(&mut matrix, channel_count);
    matrix
}

/// The entry of a list, or nothing where it has none.
pub open spec fn entry<T>(list: Seq<T>, index: int) -> Option<T> {
    if index < list.len() {
        Some(list[index])
    } else {
        None
    }
}

/// `after` is `before` brought to this many channels and objects. What stays
/// keeps its history; what is new has none.
pub open spec fn reconfigured<S: Copy>(
    before: JocObjectDecoderState<S>,
    after: JocObjectDecoderState<S>,
    channel_count: int,
    object_count: int,
) -> bool {
    &&& after.banks_wf()
    &&& after.silence == before.silence
    &&& after.last_frame == before.last_frame
    &&& after.shaped(channel_count, object_count)
    &&& banks_kept(before.forward_qmf@, after.forward_qmf@, before.silence)
    &&& banks_kept(before.inverse_qmf@, after.inverse_qmf@, before.silence)
    &&& forall|object: int|
        0 <= object < object_count ==> #[trigger] after.inverse_history@[object] == match entry(
            before.inverse_history@,
            object,
        ) {
            Some(fed) => fed,
            None => false,
        }
    &&& forall|object: int|
        0 <= object < object_count ==> matrix_resized(
            match entry(before.prev_matrix@, object) {
                Some(matrix) => matrix@,
                None => Seq::empty(),
            },
            (#[trigger] after.prev_matrix@[object])@,
            channel_count,
        )
    &&& forall|object: int, point: int|
        0 <= object < object_count && 0 <= point < 2 ==> matrix_resized(
            match entry(before.mix_matrix@, object) {
                Some(points) => points@[point]@,
                None => Seq::empty(),
            },
            (#[trigger] after.mix_matrix@[object]@[point])@,
            channel_count,
        )
    &&& forall|object: int, slot: int|
        0 <= object < object_count && 0 <= slot < 2
            ==> #[trigger] after.timeslot_offsets@[object]@[slot] == match entry(
            before.timeslot_offsets@,
            object,
        ) {
            Some(offsets) => offsets@[slot],
            None => 0,
        }
}

/// The banks that both lists have are the same, and the further ones of `after`
/// have seen nothing but silence.
pub open spec fn banks_kept<S: Copy>(
    before: Seq<QuadratureMirrorFilterBank<S>>,
    after: Seq<QuadratureMirrorFilterBank<S>>,
    silence: S,
) -> bool {
    &&& forall|index: int|
        0 <= index < after.len() && index < before.len() ==> #[trigger] after[index]
            == before[index]
    &&& forall|index: int, place: int|
        before.len() <= index < after.len() && 0 <= place < FORWARD_WINDOW
            ==> #[trigger] after[index].forward.window()[place] == silence
    &&& forall|index: int, place: int|
        before.len() <= index < after.len() && 0 <= place < INVERSE_WINDOW
            ==> #[trigger] after[index].inverse.window()[place] == silence
}

/// The error of the first object from `index` on that is missing or whose
/// parameters cannot be decoded.
pub open spec fn objects_error(
    objects: Seq<JocObject>,
    channel_count: usize,
    object_count: int,
    index: int,
) -> Option<ParseError>
    decreases object_count - index,
{
    if index >= object_count {
        None
    } else if index >= objects.len() {
        Some(ParseError::InvalidHeader("joc-object"))
    } else {
        match points_result(objects[index], channel_count) {
            Err(error) => Some(error),
            Ok(_) => objects_error(objects, channel_count, object_count, index + 1),
        }
    }
}

/// The place of the first object from `index` on that is missing or whose
/// parameters cannot be decoded.
pub open spec fn error_place(
    objects: Seq<JocObject>,
    channel_count: usize,
    object_count: int,
    index: int,
) -> int
    decreases object_count - index,
{
    if index >= object_count || index >= objects.len() || points_result(
        objects[index],
        channel_count,
    ) is Err {
        index
    } else {
        error_place(objects, channel_count, object_count, index + 1)
    }
}

/// Object `index` has been taken from state `before` to state `after` by its
/// parameters.
pub open spec fn object_taken<S: Copy>(
    before: JocObjectDecoderState<S>,
    after: JocObjectDecoderState<S>,
    object: JocObject,
    channel_count: usize,
    index: int,
) -> bool {
    &&& after.timeslot_offsets@[index]@ == offsets_after(object, before.timeslot_offsets@[index]@)
    &&& forall|point: int|
        0 <= point < 2 ==> if object.active && point < object.data_points {
            point_decoded(
                object,
                channel_count,
                point,
                before.mix_matrix@[index]@[point]@,
                (#[trigger] after.mix_matrix@[index]@[point])@,
            )
        } else {
            after.mix_matrix@[index]@[point]@ == before.mix_matrix@[index]@[point]@
        }
    &&& after.prev_matrix@[index]@ == if object.active {
        after.mix_matrix@[index]@[object.data_points - 1]@
    } else {
        before.prev_matrix@[index]@
    }
}

/// `mix` is how object `index` is mixed once it has been taken from state
/// `before` to state `after`.
pub open spec fn object_built<S: Copy>(
    before: JocObjectDecoderState<S>,
    after: JocObjectDecoderState<S>,
    object: JocObject,
    channel_count: usize,
    timeslots: int,
    index: int,
    mix: ObjectMix,
) -> bool {
    &&& object_taken(before, after, object, channel_count, index)
    &&& mix.previous@ == before.prev_matrix@[index]@
    &&& forall|point: int|
        0 <= point < 2 ==> (#[trigger] mix.points@[point])@ == after.mix_matrix@[index]@[point]@
    &&& mix.slots@.len() == timeslots
    &&& forall|slot: int|
        0 <= slot < timeslots ==> #[trigger] mix.slots@[slot] == slot_mix(
            object,
            after.timeslot_offsets@[index]@,
            timeslots,
            slot,
        )
}

/// `after` is the mixing of an object over another number of timeslots and
/// channels: what both have is kept, all else is silent.
pub open spec fn mix_resized(
    before: Option<ObjectMix>,
    after: ObjectMix,
    timeslots: int,
    channel_count: int,
) -> bool {
    &&& after.slots@.len() == timeslots
    &&& forall|slot: int|
        0 <= slot < timeslots ==> #[trigger] after.slots@[slot] == match before {
            Some(mix) => if slot < mix.slots@.len() {
                mix.slots@[slot]
            } else {
                SlotMix::Silent
            },
            None => SlotMix::Silent,
        }
    &&& matrix_resized(
        match before {
            Some(mix) => mix.previous@,
            None => Seq::empty(),
        },
        after.previous@,
        channel_count,
    )
    &&& forall|point: int|
        0 <= point < 2 ==> matrix_resized(
            match before {
                Some(mix) => mix.points@[point]@,
                None => Seq::empty(),
            },
            (#[trigger] after.points@[point])@,
            channel_count,
        )
}

/// What an object in error at `place` leaves: the objects before it have been
/// taken over and are mixed by their parameters; of its own the timeslot offsets
/// have been, and the parameters before the error; of those behind it nothing.
/// It and those behind it are still mixed as in the frame before, over the new
/// timeslots and channels.
pub open spec fn objects_taken_up_to<S: Copy>(
    before: JocObjectDecoderState<S>,
    after: JocObjectDecoderState<S>,
    objects: Seq<JocObject>,
    channel_count: usize,
    object_count: int,
    timeslots: int,
    place: int,
) -> bool {
    &&& after.last_frame@.len() == object_count
    &&& forall|index: int|
        0 <= index < place ==> object_built(
            before,
            after,
            objects[index],
            channel_count,
            timeslots,
            index,
            #[trigger] after.last_frame@[index],
        )
    &&& forall|index: int|
        place <= index < object_count ==> mix_resized(
            entry(before.last_frame@, index),
            #[trigger] after.last_frame@[index],
            timeslots,
            channel_count as int,
        )
    &&& forall|index: int|
        place <= index < object_count ==> (#[trigger] after.prev_matrix@[index])@
            == before.prev_matrix@[index]@
    &&& forall|index: int, point: int|
        place < index < object_count && 0 <= point < 2
            ==> (#[trigger] after.mix_matrix@[index]@[point])@
            == before.mix_matrix@[index]@[point]@
    &&& forall|index: int|
        place < index < object_count ==> (#[trigger] after.timeslot_offsets@[index])@
            == before.timeslot_offsets@[index]@
    &&& place < object_count ==> if place < objects.len() {
        &&& after.timeslot_offsets@[place]@ == offsets_after(
            objects[place],
            before.timeslot_offsets@[place]@,
        )
        &&& forall|point: int|
            0 <= point < 2 ==> point_written(
                objects[place],
                channel_count,
                point,
                before.mix_matrix@[place]@[point]@,
                (#[trigger] after.mix_matrix@[place]@[point])@,
            )
    } else {
        &&& after.timeslot_offsets@[place]@ == before.timeslot_offsets@[place]@
        &&& forall|point: int|
            0 <= point < 2 ==> (#[trigger] after.mix_matrix@[place]@[point])@
                == before.mix_matrix@[place]@[point]@
    }
}

/// The states agree in everything that building a frame does not touch.
pub open spec fn same_banks<S: Copy>(
    left: JocObjectDecoderState<S>,
    right: JocObjectDecoderState<S>,
) -> bool {
    &&& left.silence == right.silence
    &&& left.forward_qmf == right.forward_qmf
    &&& left.inverse_qmf == right.inverse_qmf
    &&& left.inverse_history == right.inverse_history
}

/// Why a frame cannot be rebuilt, before its objects are looked at.
pub open spec fn frame_error(
    order: Seq<BedChannel>,
    samples: nat,
    channel_count: usize,
) -> Option<ParseError> {
    if channel_count > JOC_INPUT_CHANNELS {
        Some(ParseError::UnsupportedFeature("joc-channel-count"))
    } else if samples == 0 || samples % 64 != 0 {
        Some(ParseError::InvalidHeader("joc-frame-samples"))
    } else if !feeds_downmix(order, channel_count as int) {
        Some(input_layout_error())
    } else {
        None
    }
}

/// What setting a frame up does to a state and returns.
pub open spec fn frame_planned<S: Copy, G>(
    before: JocObjectDecoderState<S>,
    after: JocObjectDecoderState<S>,
    core: CoreModel<S>,
    joc: JocPayload<G>,
    result: Result<FramePlan, ParseError>,
) -> bool {
    match frame_error(core.order, samples_of(core), joc.channel_count) {
        Some(reason) => {
            &&& result matches Err(error) && error == reason
            &&& after == before
        },
        None => match objects_error(joc.objects@, joc.channel_count, joc.object_count as int, 0) {
            Some(reason) => {
                &&& result matches Err(error) && error == reason
                &&& exists|middle: JocObjectDecoderState<S>|
                    {
                        &&& #[trigger] reconfigured(
                            before,
                            middle,
                            joc.channel_count as int,
                            joc.object_count as int,
                        )
                        &&& same_banks(middle, after)
                        &&& objects_taken_up_to(
                            middle,
                            after,
                            joc.objects@,
                            joc.channel_count,
                            joc.object_count as int,
                            (samples_of(core) / 64) as int,
                            error_place(
                                joc.objects@,
                                joc.channel_count,
                                joc.object_count as int,
                                0,
                            ),
                        )
                    }
            },
            None => {
                &&& result matches Ok(plan)
                &&& plan.timeslots == samples_of(core) / 64
                &&& plan.input_indices@.len() == joc.channel_count
                &&& forall|index: int|
                    0 <= index < joc.channel_count ==> input_place(core.order, joc_input(index))
                        == Some(#[trigger] plan.input_indices@[index] as int)
                &&& after.last_frame@.len() == joc.object_count
                &&& exists|middle: JocObjectDecoderState<S>|
                    {
                        &&& #[trigger] reconfigured(
                            before,
                            middle,
                            joc.channel_count as int,
                            joc.object_count as int,
                        )
                        &&& same_banks(middle, after)
                        &&& forall|index: int|
                            0 <= index < joc.object_count ==> object_built(
                                middle,
                                after,
                                joc.objects@[index],
                                joc.channel_count,
                                plan.timeslots as int,
                                index,
                                #[trigger] after.last_frame@[index],
                            )
                    }
            },
        },
    }
}

impl<S: Copy> JocObjectDecoderState<S> {
    /// Every bank is sound.
    pub open spec fn banks_wf(&self) -> bool {
        &&& forall|index: int| 0 <= index < self.forward_qmf@.len() ==> (
        #[trigger] self.forward_qmf@[index]).wf()
        &&& forall|index: int| 0 <= index < self.inverse_qmf@.len() ==> (
        #[trigger] self.inverse_qmf@[index]).wf()
    }

    /// No cross-frame history is held.
    pub open spec fn cold(&self) -> bool {
        &&& self.prev_matrix@.len() == 0
        &&& self.mix_matrix@.len() == 0
        &&& self.timeslot_offsets@.len() == 0
        &&& self.forward_qmf@.len() == 0
        &&& self.inverse_qmf@.len() == 0
        &&& self.inverse_history@.len() == 0
        &&& self.last_frame@.len() == 0
    }

    /// The state is set up for this many channels and objects.
    pub open spec fn shaped(&self, channel_count: int, object_count: int) -> bool {
        &&& self.forward_qmf@.len() == channel_count
        &&& self.inverse_qmf@.len() == object_count
        &&& self.inverse_history@.len() == object_count
        &&& self.prev_matrix@.len() == object_count
        &&& self.mix_matrix@.len() == object_count
        &&& self.timeslot_offsets@.len() == object_count
        &&& forall|object: int|
            0 <= object < object_count ==> (#[trigger] self.prev_matrix@[object])@.len()
                == channel_count
        &&& forall|object: int|
            0 <= object < object_count ==> {
                &&& (#[trigger] self.mix_matrix@[object])@[0]@.len() == channel_count
                &&& self.mix_matrix@[object]@[1]@.len() == channel_count
            }
    }

    /// A state without history.
    pub fn new(silence: S) -> (state: Self)
        ensures
            state.cold(),
            state.banks_wf(),
            state.silence == silence,
    {
        JocObjectDecoderState {
            silence,
            prev_matrix: Vec::new(),
            mix_matrix: Vec::new(),
            timeslot_offsets: Vec::new(),
            forward_qmf: Vec::new(),
            inverse_qmf: Vec::new(),
            inverse_history: Vec::new(),
            last_frame: Vec::new(),
        }
    }

    /// Whether no cross-frame history is held.
    pub fn is_cold(&self) -> (cold: bool)
        ensures
            cold == (self.prev_matrix@.len() == 0 && self.forward_qmf@.len() == 0
                && self.inverse_qmf@.len() == 0 && self.inverse_history@.len() == 0),
    {
        self.prev_matrix.len() == 0 && self.forward_qmf.len() == 0 && self.inverse_qmf.len() == 0
            && self.inverse_history.len() == 0
    }

    /// Forgets all cross-frame history.
    pub fn reset(&mut self)
        ensures
            final(self).cold(),
            final(self).banks_wf(),
            final(self).silence == old(self).silence,
    {
        *self = JocObjectDecoderState::new(self.silence);
    }

    /// Brings a list of banks to `count`: those that stay keep their history,
    /// new ones have none.
    fn resize_banks(
        banks: &mut Vec<QuadratureMirrorFilterBank<S>>,
        count: usize,
        silence: S,
    )
        requires
            forall|index: int| 0 <= index < old(banks)@.len() ==> (#[trigger] old(banks)@[index]).wf(),
        ensures
            final(banks)@.len() == count,
            forall|index: int| 0 <= index < count ==> (#[trigger] final(banks)@[index]).wf(),
            banks_kept(old(banks)@, final(banks)@, silence),
    {
        if banks.len() > count {
            banks.truncate(count);
        }
        while banks.len() < count
            invariant
                banks@.len() <= count,
                forall|index: int| 0 <= index < banks@.len() ==> (#[trigger] banks@[index]).wf(),
                banks_kept(old(banks)@, banks@, silence),
                old(banks)@.len() <= banks@.len() || banks@.len() == count,
            decreases count - banks@.len(),
        {
            banks.push(QuadratureMirrorFilterBank::new(silence));
        }
    }

    /// Brings the state to this many channels and objects. What stays keeps its
    /// history; what is new has none.
    pub fn reconfigure(&mut self, channel_count: usize, object_count: usize)
        requires
            old(self).banks_wf(),
        ensures
            reconfigured(*old(self), *final(self), channel_count as int, object_count as int),
    {
        let silence: S = self.silence;
        Self::resize_banks(&mut self.forward_qmf, channel_count, silence);
        Self::resize_banks(&mut self.inverse_qmf, object_count, silence);
        if self.inverse_history.len() > object_count {
            self.inverse_history.truncate(object_count);
        }
        if self.prev_matrix.len() > object_count {
            self.prev_matrix.truncate(object_count);
        }
        if self.mix_matrix.len() > object_count {
            self.mix_matrix.truncate(object_count);
        }
        if self.timeslot_offsets.len() > object_count {
            self.timeslot_offsets.truncate(object_count);
        }
        extend_history(&mut self.inverse_history, object_count);
        extend_offsets(&mut self.timeslot_offsets, object_count);
        resize_previous(&mut self.prev_matrix, object_count, channel_count);
        resize_points(&mut self.mix_matrix, object_count, channel_count);
        proof {
            assert forall|object: int| 0 <= object < object_count implies {
                &&& (#[trigger] self.mix_matrix@[object])@[0]@.len() == channel_count
                &&& self.mix_matrix@[object]@[1]@.len() == channel_count
            } by {
                assert(self.mix_matrix@[object]@[0]@.len() == channel_count);
                assert(self.mix_matrix@[object]@[1]@.len() == channel_count);
            }
        }
    }
}

impl<S: Copy> JocObjectDecoderState<S> {
    /// Decodes the parameters of all objects and settles how each is mixed. On
    /// an error the objects before it have been taken over.
    fn build_frame_matrices<G>(&mut self, joc: &JocPayload<G>, timeslots: usize) -> (result: Result<
        (),
        ParseError,
    >)
        requires
            old(self).shaped(joc.channel_count as int, joc.object_count as int),
            objects_play(*joc),
            timeslots < usize::MAX,
        ensures
            same_banks(*old(self), *final(self)),
            final(self).shaped(joc.channel_count as int, joc.object_count as int),
            match objects_error(joc.objects@, joc.channel_count, joc.object_count as int, 0) {
                Some(reason) => {
                    &&& result matches Err(error) && error == reason
                    &&& objects_taken_up_to(
                        *old(self),
                        *final(self),
                        joc.objects@,
                        joc.channel_count,
                        joc.object_count as int,
                        timeslots as int,
                        error_place(joc.objects@, joc.channel_count, joc.object_count as int, 0),
                    )
                },
                None => {
                    &&& result is Ok
                    &&& final(self).last_frame@.len() == joc.object_count
                    &&& forall|index: int|
                        0 <= index < joc.object_count ==> object_built(
                            *old(self),
                            *final(self),
                            joc.objects@[index],
                            joc.channel_count,
                            timeslots as int,
                            index,
                            #[trigger] final(self).last_frame@[index],
                        )
                },
            },
    {
        let mut mixes: Vec<ObjectMix> = Vec::new();
        let mut index: usize = 0;
        let count: usize = joc.object_count;
        while index < count
            invariant
                index <= count,
                count == joc.object_count,
                mixes@.len() == index,
                index <= joc.objects@.len(),
                timeslots < usize::MAX,
                old(self).shaped(joc.channel_count as int, count as int),
                self.shaped(joc.channel_count as int, count as int),
                same_banks(*old(self), *self),
                self.last_frame == old(self).last_frame,
                objects_play(*joc),
                objects_error(joc.objects@, joc.channel_count, count as int, 0) == objects_error(
                    joc.objects@,
                    joc.channel_count,
                    count as int,
                    index as int,
                ),
                error_place(joc.objects@, joc.channel_count, count as int, 0) == error_place(
                    joc.objects@,
                    joc.channel_count,
                    count as int,
                    index as int,
                ),
                forall|seen: int|
                    0 <= seen < index ==> object_built(
                        *old(self),
                        *self,
                        joc.objects@[seen],
                        joc.channel_count,
                        timeslots as int,
                        seen,
                        #[trigger] mixes@[seen],
                    ),
                forall|ahead: int|
                    index <= ahead < count ==> #[trigger] self.prev_matrix@[ahead] == old(
                        self,
                    ).prev_matrix@[ahead],
                forall|ahead: int|
                    index <= ahead < count ==> #[trigger] self.mix_matrix@[ahead] == old(
                        self,
                    ).mix_matrix@[ahead],
                forall|ahead: int|
                    index <= ahead < count ==> #[trigger] self.timeslot_offsets@[ahead] == old(
                        self,
                    ).timeslot_offsets@[ahead],
            decreases count - index,
        {
            if index >= joc.objects.len() {
                keep_rest(&mut self.last_frame, mixes, count, timeslots, joc.channel_count);
                return Err(ParseError::InvalidHeader("joc-object"));
            }
            let ghost before = *self;
            let object: &JocObject = &joc.objects[index];
            proof {
                lemma_error_place(joc.objects@, joc.channel_count, count as int, index as int);
            }
            assert(object_plays(joc.objects@, joc.channel_count, index as int));
            assert(self.prev_matrix@[index as int] == old(self).prev_matrix@[index as int]);
            assert(self.mix_matrix@[index as int]@[0]@.len() == joc.channel_count);
            if let Err(error) = decode_parameter_points(
                &mut self.mix_matrix[index],
                &mut self.timeslot_offsets[index],
                object,
                joc.channel_count,
            ) {
                proof {
                    assert(self.mix_matrix@[index as int]@[0]@.len() == joc.channel_count);
                    assert(self.mix_matrix@[index as int]@[1]@.len() == joc.channel_count);
                    lemma_shape_kept(before, *self, index as int, joc.channel_count as int, count as int);
                    assert forall|seen: int| 0 <= seen < index implies object_built(
                        *old(self),
                        *self,
                        joc.objects@[seen],
                        joc.channel_count,
                        timeslots as int,
                        seen,
                        #[trigger] mixes@[seen],
                    ) by {
                        assert(self.mix_matrix@[seen] == before.mix_matrix@[seen]);
                        assert(self.prev_matrix@[seen] == before.prev_matrix@[seen]);
                        assert(self.timeslot_offsets@[seen] == before.timeslot_offsets@[seen]);
                    }
                    assert forall|other: int, point: int|
                        index < other < count && 0 <= point < 2 implies (
                    #[trigger] self.mix_matrix@[other]@[point])@ == old(
                        self,
                    ).mix_matrix@[other]@[point]@ by {
                        assert(self.mix_matrix@[other] == before.mix_matrix@[other]);
                        assert(before.mix_matrix@[other] == old(self).mix_matrix@[other]);
                    }
                }
                let ghost failed = *self;
                keep_rest(&mut self.last_frame, mixes, count, timeslots, joc.channel_count);
                proof {
                    assert forall|seen: int| 0 <= seen < index implies object_built(
                        *old(self),
                        *self,
                        joc.objects@[seen],
                        joc.channel_count,
                        timeslots as int,
                        seen,
                        #[trigger] self.last_frame@[seen],
                    ) by {
                        assert(object_built(
                            *old(self),
                            failed,
                            joc.objects@[seen],
                            joc.channel_count,
                            timeslots as int,
                            seen,
                            mixes@[seen],
                        ));
                    }
                }
                return Err(error);
            }
            let previous: SubbandMatrix = copied(&self.prev_matrix[index]);
            let slots: Vec<SlotMix> = build_object_timeslots(
                object,
                self.timeslot_offsets[index],
                timeslots,
            );
            if object.active {
                let last: SubbandMatrix = copied(&self.mix_matrix[index][object.data_points - 1]);
                self.prev_matrix[index] = last;
            }
            proof {
                let point = object.data_points - 1;
                assert(self.mix_matrix@[index as int]@[0]@.len() == joc.channel_count);
                assert(self.mix_matrix@[index as int]@[1]@.len() == joc.channel_count);
                lemma_shape_kept(before, *self, index as int, joc.channel_count as int, count as int);
            }
            let points: [SubbandMatrix; 2] = [
                copied(&self.mix_matrix[index][0]),
                copied(&self.mix_matrix[index][1]),
            ];
            let mix = ObjectMix { previous, points, slots };
            let ghost earlier = mixes@;
            mixes.push(mix);
            proof {
                assert(object_built(
                    *old(self),
                    *self,
                    joc.objects@[index as int],
                    joc.channel_count,
                    timeslots as int,
                    index as int,
                    mix,
                ));
                assert forall|seen: int| 0 <= seen < index + 1 implies object_built(
                    *old(self),
                    *self,
                    joc.objects@[seen],
                    joc.channel_count,
                    timeslots as int,
                    seen,
                    #[trigger] mixes@[seen],
                ) by {
                    if seen < index {
                        assert(mixes@[seen] == earlier[seen]);
                        assert(self.mix_matrix@[seen] == before.mix_matrix@[seen]);
                        assert(self.prev_matrix@[seen] == before.prev_matrix@[seen]);
                        assert(self.timeslot_offsets@[seen] == before.timeslot_offsets@[seen]);
                    }
                }
            }
            index = index + 1;
        }
        self.last_frame = mixes;
        Ok(())
    }

    /// Sets a frame up: which core channels feed it, and how each object is
    /// mixed in each timeslot.
    pub fn plan_frame<G>(&mut self, core: &CorePcmFrame<S>, joc: &JocPayload<G>) -> (result: Result<
        FramePlan,
        ParseError,
    >)
        requires
            old(self).banks_wf(),
            frame_error(core@.order, samples_of(core@), joc.channel_count) is None
                ==> objects_play(*joc),
        ensures
            final(self).banks_wf(),
            frame_planned(*old(self), *final(self), core@, *joc, result),
            result is Ok ==> final(self).shaped(
                joc.channel_count as int,
                joc.object_count as int,
            ),
    {
        if joc.channel_count > JOC_INPUT_CHANNELS {
            return Err(ParseError::UnsupportedFeature("joc-channel-count"));
        }
        let samples: usize = core.samples_per_channel();
        if samples == 0 || samples % QMF_SUBBANDS != 0 {
            return Err(ParseError::InvalidHeader("joc-frame-samples"));
        }
        let input_indices: Vec<usize> = match map_input_channel_indices(core, joc.channel_count) {
            Ok(indices) => indices,
            Err(error) => {
                return Err(error);
            },
        };
        let timeslots: usize = samples / QMF_SUBBANDS;
        self.reconfigure(joc.channel_count, joc.object_count);
        let ghost middle = *self;
        match self.build_frame_matrices(joc, timeslots) {
            Ok(_) => {
                assert(reconfigured(
                    *old(self),
                    middle,
                    joc.channel_count as int,
                    joc.object_count as int,
                ));
                Ok(FramePlan { input_indices, timeslots })
            },
            Err(error) => {
                assert(reconfigured(
                    *old(self),
                    middle,
                    joc.channel_count as int,
                    joc.object_count as int,
                ));
                Err(error)
            },
        }
    }

    /// Whether the synthesis of an object runs in a timeslot: it does for an
    /// active object, and from then on, so that its tail is played out.
    pub fn feed_object(&mut self, index: usize, active: bool) -> (runs: bool)
        requires
            index < old(self).inverse_history@.len(),
        ensures
            runs == (active || old(self).inverse_history@[index as int]),
            final(self).inverse_history@ == old(self).inverse_history@.update(index as int, runs),
            *final(self) == (JocObjectDecoderState {
                inverse_history: final(self).inverse_history,
                ..*old(self)
            }),
    {
        let runs: bool = active || self.inverse_history[index];
        self.inverse_history[index] = runs;
        runs
    }
}

/// An object in error is not before the place that is looked from.
proof fn lemma_error_place(
    objects: Seq<JocObject>,
    channel_count: usize,
    object_count: int,
    index: int,
)
    ensures
        index <= error_place(objects, channel_count, object_count, index),
    decreases object_count - index,
{
    if index < object_count && index < objects.len() && points_result(
        objects[index],
        channel_count,
    ) is Ok {
        lemma_error_place(objects, channel_count, object_count, index + 1);
    }
}

/// Brings the mixing of an object to another number of timeslots and channels.
fn resize_mix(mix: &mut ObjectMix, timeslots: usize, channel_count: usize)
    ensures
        mix_resized(Some(*old(mix)), *final(mix), timeslots as int, channel_count as int),
{
    if mix.slots.len() > timeslots {
        mix.slots.truncate(timeslots);
    }
    while mix.slots.len() < timeslots
        invariant
            mix.slots@.len() <= timeslots,
            mix.previous == old(mix).previous,
            mix.points == old(mix).points,
            old(mix).slots@.len() <= mix.slots@.len() || mix.slots@.len() == timeslots,
            forall|slot: int|
                0 <= slot < mix.slots@.len() ==> #[trigger] mix.slots@[slot] == if slot < old(
                    mix,
                ).slots@.len() {
                    old(mix).slots@[slot]
                } else {
                    SlotMix::Silent
                },
        decreases timeslots - mix.slots@.len(),
    {
        mix.slots.push(SlotMix::Silent);
    }
    resize_matrix(&mut mix.previous, channel_count);
    resize_matrix(&mut mix.points[0], channel_count);
    resize_matrix(&mut mix.points[1], channel_count);
}

/// The objects that were not mixed anew keep their mixing, over the timeslots
/// and channels of the new frame.
fn keep_rest(
    frame: &mut Vec<ObjectMix>,
    mixes: Vec<ObjectMix>,
    object_count: usize,
    timeslots: usize,
    channel_count: usize,
)
    requires
        mixes@.len() <= object_count,
    ensures
        final(frame)@.len() == object_count,
        forall|index: int|
            0 <= index < mixes@.len() ==> #[trigger] final(frame)@[index] == mixes@[index],
        forall|index: int|
            mixes@.len() <= index < object_count ==> mix_resized(
                entry(old(frame)@, index),
                #[trigger] final(frame)@[index],
                timeslots as int,
                channel_count as int,
            ),
{
    let built: usize = mixes.len();
    if frame.len() > object_count {
        frame.truncate(object_count);
    }
    let mut rest: Vec<ObjectMix> = if frame.len() > built {
        frame.split_off(built)
    } else {
        Vec::new()
    };
    assert(forall|index: int|
        0 <= index < rest@.len() ==> #[trigger] rest@[index] == old(frame)@[built + index]);
    assert(rest@.len() == if old(frame)@.len() <= built {
        0
    } else if old(frame)@.len() <= object_count {
        old(frame)@.len() - built
    } else {
        object_count - built
    });
    let ghost kept = rest@;
    let mut all: Vec<ObjectMix> = mixes;
    let mut place: usize = 0;
    while place < rest.len()
        invariant
            place <= rest@.len() == kept.len(),
            forall|ahead: int|
                place <= ahead < kept.len() ==> #[trigger] rest@[ahead] == kept[ahead],
            forall|seen: int|
                0 <= seen < place ==> mix_resized(
                    Some(kept[seen]),
                    #[trigger] rest@[seen],
                    timeslots as int,
                    channel_count as int,
                ),
        decreases rest.len() - place,
    {
        resize_mix(&mut rest[place], timeslots, channel_count);
        place = place + 1;
    }
    let ghost resized = rest@;
    all.append(&mut rest);
    assert forall|index: int| built <= index < all@.len() implies mix_resized(
        entry(old(frame)@, index),
        #[trigger] all@[index],
        timeslots as int,
        channel_count as int,
    ) by {
        assert(all@[index] == resized[index - built]);
        assert(kept[index - built] == old(frame)@[index]);
    }
    while all.len() < object_count
        invariant
            built <= all@.len() <= object_count,
            built == mixes@.len(),
            all@.len() < object_count ==> old(frame)@.len() <= all@.len(),
            forall|index: int|
                0 <= index < built ==> #[trigger] all@[index] == mixes@[index],
            forall|index: int|
                built <= index < all@.len() ==> mix_resized(
                    entry(old(frame)@, index),
                    #[trigger] all@[index],
                    timeslots as int,
                    channel_count as int,
                ),
        decreases object_count - all@.len(),
    {
        let mut mix = ObjectMix {
            previous: Vec::new(),
            points: [Vec::new(), Vec::new()],
            slots: Vec::new(),
        };
        resize_mix(&mut mix, timeslots, channel_count);
        all.push(mix);
    }
    *frame = all;
}

/// A state keeps its shape when one object's matrices keep theirs.
proof fn lemma_shape_kept<S: Copy>(
    before: JocObjectDecoderState<S>,
    after: JocObjectDecoderState<S>,
    index: int,
    channel_count: int,
    object_count: int,
)
    requires
        before.shaped(channel_count, object_count),
        same_banks(before, after),
        0 <= index < object_count,
        after.prev_matrix@.len() == object_count,
        after.mix_matrix@.len() == object_count,
        after.timeslot_offsets@.len() == object_count,
        after.prev_matrix@[index]@.len() == channel_count,
        after.mix_matrix@[index]@[0]@.len() == channel_count,
        after.mix_matrix@[index]@[1]@.len() == channel_count,
        forall|other: int|
            0 <= other < object_count && other != index ==> {
                &&& #[trigger] after.prev_matrix@[other] == before.prev_matrix@[other]
                &&& after.mix_matrix@[other] == before.mix_matrix@[other]
            },
    ensures
        after.shaped(channel_count, object_count),
{
    assert forall|object: int| 0 <= object < object_count implies (
    #[trigger] after.prev_matrix@[object])@.len() == channel_count by {
        if object != index {
            assert(before.prev_matrix@[object]@.len() == channel_count);
        }
    }
    assert forall|object: int| 0 <= object < object_count implies {
        &&& (#[trigger] after.mix_matrix@[object])@[0]@.len() == channel_count
        &&& after.mix_matrix@[object]@[1]@.len() == channel_count
    } by {
        if object != index {
            assert(after.prev_matrix@[object] == before.prev_matrix@[object]);
            assert(before.mix_matrix@[object]@[0]@.len() == channel_count);
        }
    }
}

/// Extends a list of flags with cleared ones.
fn extend_history(history: &mut Vec<bool>, count: usize)
    requires
        old(history)@.len() <= count,
    ensures
        final(history)@.len() == count,
        forall|index: int|
            0 <= index < count ==> #[trigger] final(history)@[index] == match entry(
                old(history)@,
                index,
            ) {
                Some(fed) => fed,
                None => false,
            },
{
    while history.len() < count
        invariant
            old(history)@.len() <= history@.len() <= count,
            forall|index: int|
                0 <= index < history@.len() ==> #[trigger] history@[index] == match entry(
                    old(history)@,
                    index,
                ) {
                    Some(fed) => fed,
                    None => false,
                },
        decreases count - history@.len(),
    {
        history.push(false);
    }
}

/// Extends a list of offsets with zeros.
fn extend_offsets(offsets: &mut Vec<[u8; 2]>, count: usize)
    requires
        old(offsets)@.len() <= count,
    ensures
        final(offsets)@.len() == count,
        forall|index: int|
            0 <= index < old(offsets)@.len() ==> #[trigger] final(offsets)@[index] == old(offsets)@[index],
        forall|index: int, slot: int|
            old(offsets)@.len() <= index < count && 0 <= slot < 2 ==> #[trigger] final(offsets)@[index]@[slot] == 0,
{
    while offsets.len() < count
        invariant
            old(offsets)@.len() <= offsets@.len() <= count,
            forall|index: int|
                0 <= index < old(offsets)@.len() ==> #[trigger] offsets@[index] == old(offsets)@[index],
            forall|index: int, slot: int|
                old(offsets)@.len() <= index < offsets@.len() && 0 <= slot < 2
                    ==> #[trigger] offsets@[index]@[slot] == 0,
        decreases count - offsets@.len(),
    {
        offsets.push([0; 2]);
    }
}

/// Brings the previous matrices to `channel_count` channels, and their number
/// to `count`.
fn resize_previous(matrices: &mut Vec<SubbandMatrix>, count: usize, channel_count: usize)
    requires
        old(matrices)@.len() <= count,
    ensures
        final(matrices)@.len() == count,
        forall|index: int|
            0 <= index < count ==> matrix_resized(
                match entry(old(matrices)@, index) {
                    Some(matrix) => matrix@,
                    None => Seq::empty(),
                },
                (#[trigger] final(matrices)@[index])@,
                channel_count as int,
            ),
{
    let kept: usize = matrices.len();
    let mut index: usize = 0;
    while index < kept
        invariant
            index <= kept,
            kept == old(matrices)@.len() == matrices@.len(),
            kept <= count,
            forall|seen: int|
                0 <= seen < index ==> matrix_resized(
                    old(matrices)@[seen]@,
                    (#[trigger] matrices@[seen])@,
                    channel_count as int,
                ),
            forall|ahead: int|
                index <= ahead < kept ==> #[trigger] matrices@[ahead] == old(matrices)@[ahead],
        decreases kept - index,
    {
        resize_matrix(&mut matrices[index], channel_count);
        index = index + 1;
    }
    while matrices.len() < count
        invariant
            kept <= matrices@.len() <= count,
            kept == old(matrices)@.len(),
            forall|seen: int|
                0 <= seen < matrices@.len() ==> matrix_resized(
                    match entry(old(matrices)@, seen) {
                        Some(matrix) => matrix@,
                        None => Seq::empty(),
                    },
                    (#[trigger] matrices@[seen])@,
                    channel_count as int,
                ),
        decreases count - matrices@.len(),
    {
        matrices.push(silent_matrix(channel_count));
    }
}

/// Brings the data points to `channel_count` channels, and their number to
/// `count`.
fn resize_points(points: &mut Vec<[SubbandMatrix; 2]>, count: usize, channel_count: usize)
    requires
        old(points)@.len() <= count,
    ensures
        final(points)@.len() == count,
        forall|index: int, point: int|
            0 <= index < count && 0 <= point < 2 ==> matrix_resized(
                match entry(old(points)@, index) {
                    Some(pair) => pair@[point]@,
                    None => Seq::empty(),
                },
                (#[trigger] final(points)@[index]@[point])@,
                channel_count as int,
            ),
{
    let kept: usize = points.len();
    let mut index: usize = 0;
    while index < kept
        invariant
            index <= kept,
            kept == old(points)@.len() == points@.len(),
            kept <= count,
            forall|seen: int, point: int|
                0 <= seen < index && 0 <= point < 2 ==> matrix_resized(
                    old(points)@[seen]@[point]@,
                    (#[trigger] points@[seen]@[point])@,
                    channel_count as int,
                ),
            forall|ahead: int|
                index <= ahead < kept ==> #[trigger] points@[ahead] == old(points)@[ahead],
        decreases kept - index,
    {
        let pair = &mut points[index];
        resize_matrix(&mut pair[0], channel_count);
        resize_matrix(&mut pair[1], channel_count);
        index = index + 1;
    }
    while points.len() < count
        invariant
            kept <= points@.len() <= count,
            kept == old(points)@.len(),
            forall|seen: int, point: int|
                0 <= seen < points@.len() && 0 <= point < 2 ==> matrix_resized(
                    match entry(old(points)@, seen) {
                        Some(pair) => pair@[point]@,
                        None => Seq::empty(),
                    },
                    (#[trigger] points@[seen]@[point])@,
                    channel_count as int,
                ),
        decreases count - points@.len(),
    {
        let ghost before = points@;
        points.push([silent_matrix(channel_count), silent_matrix(channel_count)]);
        assert forall|seen: int, point: int| 0 <= seen < points@.len() && 0 <= point
            < 2 implies matrix_resized(
            match entry(old(points)@, seen) {
                Some(pair) => pair@[point]@,
                None => Seq::empty(),
            },
            (#[trigger] points@[seen]@[point])@,
            channel_count as int,
        ) by {
            if seen < before.len() {
                assert(points@[seen] == before[seen]);
                assert(before[seen]@[point] == points@[seen]@[point]);
            } else {
                assert(point == 0 || point == 1);
            }
        }
    }
}

} // verus!
