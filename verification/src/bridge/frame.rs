//! Decoded frames as the renderer takes them.

use crate::bridge::labels::RChannelLabel;
use abi_stable::std_types::RVec;
use vstd::arithmetic::div_mod::lemma_fundamental_div_mod_converse;
use vstd::prelude::*;

verus! {

/// `abi_stable`'s vector with a stable layout.
#[verifier::external_type_specification]
#[verifier::external_body]
#[verifier::reject_recursive_types(T)]
pub struct ExRVec<T>(RVec<T>);

/// The samples that a vector holds, in order.
pub uninterp spec fn pcm_samples(pcm: RVec<i32>) -> Seq<i32>;

/// `RVec::new` gives a vector without items.
#[verifier::external_body]
fn empty_pcm() -> (pcm: RVec<i32>)
    ensures
        pcm_samples(pcm) == Seq::<i32>::empty(),
{
    RVec::new()
}

/// `RVec::push` appends its argument and leaves the items before it as they
/// were. It grows the buffer to at most twice its length, which must stay
/// within what an allocation can hold.
#[verifier::external_body]
fn push_pcm(pcm: &mut RVec<i32>, sample: i32)
    requires
        pcm_samples(*old(pcm)).len() < isize::MAX / 8,
    ensures
        pcm_samples(*final(pcm)) == pcm_samples(*old(pcm)).push(sample),
{
    pcm.push(sample);
}

/// `RVec::len` gives the number of items.
#[verifier::external_body]
pub(crate) fn pcm_len(pcm: &RVec<i32>) -> (count: usize)
    ensures
        count == pcm_samples(*pcm).len(),
{
    pcm.len()
}

/// Indexing an `RVec` gives the item at that place.
#[verifier::external_body]
pub(crate) fn pcm_sample(pcm: &RVec<i32>, index: usize) -> (sample: i32)
    requires
        index < pcm_samples(*pcm).len(),
    ensures
        sample == pcm_samples(*pcm)[index as int],
{
    pcm[index]
}

/// A direction and a distance, in the units that the stream transmits.
#[derive(Debug, Clone, Copy, PartialEq, Eq, Structural)]
pub struct SphericalPosition {
    pub azimuth_half_degrees: i16,
    pub elevation_half_degrees: i16,
    pub distance_64ths: u8,
}

/// An object and the channel that carries it.
#[derive(Debug, Clone, Copy, PartialEq, Eq, Structural)]
pub struct ObjectChannel {
    pub id: u32,
    pub channel: u32,
}

/// A position announced for an object.
#[derive(Debug, Clone, Copy, PartialEq, Eq, Structural)]
pub struct Event {
    pub id: u32,
    pub sample_pos: u64,
    pub position: SphericalPosition,
}

/// A name announced for an object.
#[derive(Debug)]
pub struct NameUpdate {
    pub id: u32,
    pub name: String,
}

/// What a frame announces of its objects.
#[derive(Debug)]
pub struct MetadataFrame {
    pub events: Vec<Event>,
    pub object_channels: Vec<ObjectChannel>,
    pub name_updates: Vec<NameUpdate>,
    pub sample_pos: u64,
    pub ramp_duration: u32,
}

/// One decoded frame: interleaved samples, a label for each channel, and what
/// it announces of its objects.
#[derive(Debug)]
pub struct DecodedFrame {
    pub sampling_frequency: u32,
    pub sample_count: u32,
    pub channel_count: u32,
    pub pcm: RVec<i32>,
    pub channel_labels: Vec<RChannelLabel>,
    pub metadata: Vec<MetadataFrame>,
    pub drc_ramp_duration: u32,
    pub dialogue_level: Option<i8>,
    pub is_new_segment: bool,
}

impl DecodedFrame {
    /// The samples of the frame, channel after channel for each instant.
    pub open spec fn samples(&self) -> Seq<i32> {
        pcm_samples(self.pcm)
    }

    /// The frame holds one sample per channel and instant, and one label per
    /// channel.
    pub open spec fn wf(&self) -> bool {
        &&& self.samples().len() == self.sample_count * self.channel_count
        &&& self.channel_labels@.len() == self.channel_count
    }

    /// The settings of a frame are those of plain playback.
    pub open spec fn plain_settings(&self) -> bool {
        &&& self.drc_ramp_duration == 0
        &&& self.dialogue_level is None
        &&& !self.is_new_segment
    }
}

/// The sample of a column at an instant; an absent column is silent.
pub open spec fn column_sample(column: Option<Seq<i32>>, instant: int) -> i32 {
    match column {
        Some(samples) => samples[instant],
        None => 0,
    }
}

/// `columns` interleaved over `count` instants.
pub open spec fn interleaved(columns: Seq<Option<Seq<i32>>>, count: int) -> Seq<i32> {
    Seq::new(
        (count * columns.len()) as nat,
        |index: int|
            column_sample(columns[index % columns.len() as int], index / columns.len() as int),
    )
}

/// The samples of each column.
pub open spec fn column_model(columns: Seq<Option<&Vec<i32>>>) -> Seq<Option<Seq<i32>>> {
    Seq::new(
        columns.len(),
        |column: int|
            match columns[column] {
                Some(samples) => Some(samples@),
                None => None,
            },
    )
}

/// Every column that is there has at least `count` samples.
pub open spec fn columns_reach(columns: Seq<Option<Seq<i32>>>, count: int) -> bool {
    forall|column: int|
        0 <= column < columns.len() ==> (#[trigger] columns[column] matches Some(samples)
            ==> samples.len() >= count)
}

/// Interleaves the first `count` samples of each column.
pub fn interleave(columns: &Vec<Option<&Vec<i32>>>, count: usize) -> (pcm: RVec<i32>)
    requires
        columns_reach(column_model(columns@), count as int),
        count * columns@.len() <= isize::MAX / 8,
    ensures
        pcm_samples(pcm) == interleaved(column_model(columns@), count as int),
{
    let width: usize = columns.len();
    let ghost model = column_model(columns@);
    let ghost all = interleaved(model, count as int);
    let mut pcm: RVec<i32> = empty_pcm();
    let mut instant: usize = 0;
    assert(0 * width == 0) by (nonlinear_arith);
    assert(pcm_samples(pcm) =~= all.take(0));
    while instant < count
        invariant
            instant <= count,
            width == columns@.len(),
            count * width <= isize::MAX / 8,
            model == column_model(columns@),
            columns_reach(model, count as int),
            all == interleaved(model, count as int),
            0 <= instant * width <= all.len(),
            pcm_samples(pcm) == all.take(instant * width),
        decreases count - instant,
    {
        let mut column: usize = 0;
        assert((instant + 1) * width == instant * width + width) by (nonlinear_arith);
        assert((instant + 1) * width <= count * width) by (nonlinear_arith)
            requires
                instant < count,
        ;
        while column < width
            invariant
                column <= width,
                instant < count,
                width == columns@.len(),
                count * width <= isize::MAX / 8,
                0 <= instant * width,
                instant * width + width <= count * width,
                model == column_model(columns@),
                columns_reach(model, count as int),
                all == interleaved(model, count as int),
                all.len() == count * width,
                pcm_samples(pcm) == all.take(instant * width + column),
            decreases width - column,
        {
            assert(model[column as int] matches Some(samples) ==> samples.len() >= count);
            let sample: i32 = match columns[column] {
                Some(samples) => samples[instant],
                None => 0,
            };
            proof {
                let index = instant * width + column;
                lemma_fundamental_div_mod_converse(
                    index,
                    width as int,
                    instant as int,
                    column as int,
                );
                assert(all[index] == sample);
                assert(all.take(index).push(sample) =~= all.take(index + 1));
            }
            push_pcm(&mut pcm, sample);
            column = column + 1;
        }
        instant = instant + 1;
    }
    assert(all.take(count * width) =~= all);
    pcm
}

/// Copies samples into a vector of the renderer.
pub fn copied_pcm(samples: &Vec<i32>) -> (pcm: RVec<i32>)
    requires
        samples@.len() <= isize::MAX / 8,
    ensures
        pcm_samples(pcm) == samples@,
{
    let mut pcm: RVec<i32> = empty_pcm();
    let mut index: usize = 0;
    assert(pcm_samples(pcm) =~= samples@.take(0));
    while index < samples.len()
        invariant
            index <= samples@.len() <= isize::MAX / 8,
            pcm_samples(pcm) == samples@.take(index as int),
        decreases samples.len() - index,
    {
        push_pcm(&mut pcm, samples[index]);
        assert(samples@.take(index as int).push(samples@[index as int]) =~= samples@.take(
            index + 1,
        ));
        index = index + 1;
    }
    assert(samples@.take(index as int) =~= samples@);
    pcm
}

} // verus!
