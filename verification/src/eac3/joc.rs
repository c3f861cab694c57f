//! Mixing parameters of object audio.
//!
//! An object is rebuilt from the core in 64 QMF subbands. Its gains are coded
//! as quantizer steps, so they are kept here as integers: a [`Gain`] of `steps`
//! on quantizer `table` stands for `steps * 820 / (4096 * (1 + table))`.

use crate::eac3::types::{JocObject, JocObjectData, ParseError};
use vstd::arithmetic::div_mod::{lemma_add_mod_noop_right, lemma_small_mod};
use vstd::prelude::*;

verus! {

/// Number of QMF subbands.
pub const QMF_SUBBANDS: usize = 64;

/// A quantized gain.
#[derive(Debug, Clone, Copy, PartialEq, Eq, Structural)]
pub struct Gain {
    pub steps: i32,
    pub table: u8,
}

/// No gain at all.
pub open spec fn no_gain() -> Gain {
    Gain { steps: 0, table: 0 }
}

/// Gains per channel and subband.
pub type SubbandMatrix = Vec<[Gain; 64]>;

/// First subband of each parameter band, for each of the eight resolutions.
pub open spec fn band_starts(bands_index: int) -> Seq<u8> {
    if bands_index == 0 {
        seq![0u8]
    } else if bands_index == 1 {
        seq![0u8, 3, 14]
    } else if bands_index == 2 {
        seq![0u8, 1, 3, 9, 23]
    } else if bands_index == 3 {
        seq![0u8, 1, 2, 4, 8, 14, 23]
    } else if bands_index == 4 {
        seq![0u8, 1, 2, 3, 5, 7, 9, 14, 23]
    } else if bands_index == 5 {
        seq![0u8, 1, 2, 3, 4, 6, 8, 11, 14, 18, 23, 35]
    } else if bands_index == 6 {
        seq![0u8, 1, 2, 3, 4, 5, 6, 7, 8, 9, 11, 14, 18, 23, 35]
    } else {
        seq![
            0u8,
            1,
            2,
            3,
            4,
            5,
            6,
            7,
            8,
            9,
            10,
            11,
            12,
            14,
            16,
            18,
            20,
            23,
            26,
            30,
            35,
            41,
            48,
        ]
    }
}

/// The last of the parameter bands up to `band` that does not start above
/// `subband`.
pub open spec fn last_band_up_to(starts: Seq<u8>, subband: int, band: int) -> int
    decreases band,
{
    if band <= 0 || starts[band] <= subband {
        band
    } else {
        last_band_up_to(starts, subband, band - 1)
    }
}

/// The parameter band that `subband` belongs to: the last one that does not
/// start above it.
pub open spec fn band_of(bands_index: int, subband: int) -> int {
    let starts = band_starts(bands_index);
    last_band_up_to(starts, subband, starts.len() - 1)
}

/// Whether `mapping` gives each subband its parameter band.
pub open spec fn maps_bands(bands_index: int, mapping: Seq<u8>) -> bool {
    &&& mapping.len() == 64
    &&& forall|subband: int|
        0 <= subband < 64 ==> #[trigger] mapping[subband] == band_of(bands_index, subband)
}

/// The error of a band resolution that does not exist.
pub open spec fn bands_index_error() -> ParseError {
    ParseError::InvalidHeader("joc_num_bands_idx")
}

/// First subband of each parameter band.
fn starts_of(bands_index: usize) -> (starts: Vec<u8>)
    requires
        bands_index < 8,
    ensures
        starts@ == band_starts(bands_index as int),
{
    let starts: Vec<u8> = match bands_index {
        0 => vec![0],
        1 => vec![0, 3, 14],
        2 => vec![0, 1, 3, 9, 23],
        3 => vec![0, 1, 2, 4, 8, 14, 23],
        4 => vec![0, 1, 2, 3, 5, 7, 9, 14, 23],
        5 => vec![0, 1, 2, 3, 4, 6, 8, 11, 14, 18, 23, 35],
        6 => vec![0, 1, 2, 3, 4, 5, 6, 7, 8, 9, 11, 14, 18, 23, 35],
        _ => vec![
            0,
            1,
            2,
            3,
            4,
            5,
            6,
            7,
            8,
            9,
            10,
            11,
            12,
            14,
            16,
            18,
            20,
            23,
            26,
            30,
            35,
            41,
            48,
        ],
    };
    assert(starts@ =~= band_starts(bands_index as int));
    starts
}

/// The parameter band of each subband.
pub fn expanded_parameter_band_mapping(bands_index: usize) -> (result: Result<[u8; 64], ParseError>)
    ensures
        match result {
            Ok(mapping) => bands_index < 8 && maps_bands(bands_index as int, mapping@),
            Err(error) => bands_index >= 8 && error == bands_index_error(),
        },
{
    if bands_index >= 8 {
        return Err(ParseError::InvalidHeader("joc_num_bands_idx"));
    }
    let starts: Vec<u8> = starts_of(bands_index);
    let mut mapping: [u8; 64] = [0; 64];
    let mut subband: usize = 0;
    while subband < 64
        invariant
            subband <= 64,
            bands_index < 8,
            starts@ == band_starts(bands_index as int),
            0 < starts@.len() <= 23,
            forall|seen: int|
                0 <= seen < subband ==> #[trigger] mapping@[seen] == band_of(
                    bands_index as int,
                    seen,
                ),
        decreases 64 - subband,
    {
        let mut band: usize = starts.len() - 1;
        while band > 0 && starts[band] as usize > subband
            invariant
                band < starts@.len() <= 23,
                starts@ == band_starts(bands_index as int),
                band_of(bands_index as int, subband as int) == last_band_up_to(
                    starts@,
                    subband as int,
                    band as int,
                ),
            decreases band,
        {
            band = band - 1;
        }
        mapping[subband] = band as u8;
        subband = subband + 1;
    }
    Ok(mapping)
}

/// The last band that does not start above a subband lies in range and starts
/// at or below it, and every later one starts above it.
proof fn lemma_last_band(starts: Seq<u8>, subband: int, band: int)
    requires
        0 <= band < starts.len(),
        starts[0] <= subband,
    ensures
        0 <= last_band_up_to(starts, subband, band) <= band,
        starts[last_band_up_to(starts, subband, band)] <= subband,
        forall|later: int|
            last_band_up_to(starts, subband, band) < later <= band ==> #[trigger] starts[later]
                > subband,
    decreases band,
{
    if band > 0 && starts[band] > subband {
        lemma_last_band(starts, subband, band - 1);
    }
}

/// The band of a subband starts at or below it, and the next one above it.
pub proof fn band_is_last_started(bands_index: int, subband: int)
    requires
        0 <= bands_index < 8,
        0 <= subband < 64,
    ensures
        ({
            let starts = band_starts(bands_index);
            let band = band_of(bands_index, subband);
            &&& 0 <= band < starts.len()
            &&& starts[band] <= subband
            &&& band + 1 < starts.len() ==> starts[band + 1] > subband
        }),
{
    let starts = band_starts(bands_index);
    lemma_last_band(starts, subband, starts.len() - 1);
}

/// A band never starts below its own index, so the band of a subband is never
/// above the subband; the bands ascend with the subbands, and the last band
/// reaches to the last subband.
pub proof fn bands_follow_subbands(bands_index: int, left: int, right: int)
    requires
        0 <= bands_index < 8,
        0 <= left <= right < 64,
    ensures
        0 <= band_of(bands_index, left) <= left,
        band_of(bands_index, left) <= band_of(bands_index, right),
        band_of(bands_index, 63) == band_starts(bands_index).len() - 1,
{
    let starts = band_starts(bands_index);
    let last = starts.len() - 1;
    lemma_last_band(starts, left, last);
    lemma_last_band(starts, right, last);
    lemma_last_band(starts, 63, last);
}

/// Number of steps of a quantizer.
pub open spec fn quantizer_steps(table: u8) -> int {
    96 * (1 + table)
}

/// The quantizer step that stands for no gain.
pub open spec fn quantizer_centre(table: u8) -> int {
    48 * (1 + table)
}

/// The quantizer step of `band`: each band adds its difference to the band
/// below, and the first to the centre, around the quantizer.
pub open spec fn quantized(source: Seq<u16>, table: u8, band: int) -> int
    decreases band + 1,
{
    if band < 0 {
        quantizer_centre(table)
    } else {
        (quantized(source, table, band - 1) + source[band]) % quantizer_steps(table)
    }
}

/// The gain of `band`.
pub open spec fn band_gain(source: Seq<u16>, table: u8, band: int) -> Gain {
    Gain {
        steps: (quantized(source, table, band) - quantizer_centre(table)) as i32,
        table,
    }
}

/// The first data point from `point` on whose dense parameters have the wrong
/// shape, as its error.
pub open spec fn dense_error(
    matrices: Seq<Vec<Vec<u16>>>,
    channel_count: usize,
    bands: usize,
    point: int,
) -> Option<ParseError>
    decreases matrices.len() - point,
{
    if point >= matrices.len() {
        None
    } else if matrices[point]@.len() != channel_count {
        Some(ParseError::InvalidHeader("joc_dense_channels"))
    } else if exists|channel: int|
        0 <= channel < channel_count && (#[trigger] matrices[point]@[channel])@.len() != bands {
        Some(ParseError::InvalidHeader("joc_dense_bands"))
    } else {
        dense_error(matrices, channel_count, bands, point + 1)
    }
}

/// Whether the sparse parameters of every data point have one entry per band.
pub open spec fn sparse_is_even(
    channel_indices: Seq<Vec<u8>>,
    vectors: Seq<Vec<u16>>,
    bands: usize,
) -> bool {
    forall|point: int|
        0 <= point < channel_indices.len() ==> (#[trigger] channel_indices[point])@.len() == bands
            && vectors[point]@.len() == bands
}

/// Why the coded parameters of an object have the wrong shape, if they do.
pub open spec fn data_error(data: JocObjectData, object: JocObject, channel_count: usize) -> Option<
    ParseError,
> {
    match data {
        JocObjectData::Dense { matrices } => if matrices@.len() != object.data_points {
            Some(ParseError::InvalidHeader("joc_dense_points"))
        } else {
            dense_error(matrices@, channel_count, object.bands, 0)
        },
        JocObjectData::Sparse { channel_indices, vectors } => if channel_indices@.len()
            != object.data_points || vectors@.len() != object.data_points {
            Some(ParseError::InvalidHeader("joc_sparse_points"))
        } else if !sparse_is_even(channel_indices@, vectors@, object.bands) {
            Some(ParseError::InvalidHeader("joc_sparse_bands"))
        } else {
            None
        },
    }
}

/// Whether an object says which quantizer it uses and holds parameters.
pub open spec fn has_parameters(object: JocObject) -> bool {
    object.quantization_table is Some && object.data is Some
}

/// What decoding the parameters of an object returns.
pub open spec fn points_result(object: JocObject, channel_count: usize) -> Result<(), ParseError> {
    if !object.active {
        Ok(())
    } else if object.quantization_table is None {
        Err(ParseError::InvalidHeader("joc_num_quant_idx"))
    } else if object.data is None {
        Err(ParseError::InvalidHeader("joc-object-data"))
    } else if let Some(error) = data_error(object.data->0, object, channel_count) {
        Err(error)
    } else if object.bands_index is None || object.bands_index->0 >= 8 {
        Err(bands_index_error())
    } else {
        Ok(())
    }
}

/// The timeslot offsets once an object's parameters are decoded: a steep object
/// transmits its own.
pub open spec fn offsets_after(object: JocObject, before: Seq<u8>) -> Seq<u8> {
    if object.active && has_parameters(object) && object.steep_slope {
        Seq::new(
            before.len(),
            |slot: int|
                if slot < object.timeslot_offsets@.len() {
                    object.timeslot_offsets@[slot]
                } else {
                    before[slot]
                },
        )
    } else {
        before
    }
}

/// The gain that `band` of a channel has once data point `point` is decoded,
/// where it had `before`. The coding of sparse parameters is not specified well
/// enough to decode safely, so they come out as silence.
pub open spec fn parameter_gain(
    object: JocObject,
    channel_count: usize,
    point: int,
    channel: int,
    band: int,
    before: Gain,
) -> Gain {
    if band >= object.bands {
        before
    } else {
        match object.data->0 {
            JocObjectData::Dense { matrices } => if channel < channel_count {
                band_gain(matrices@[point]@[channel]@, object.quantization_table->0, band)
            } else {
                before
            },
            JocObjectData::Sparse { .. } => no_gain(),
        }
    }
}

/// `after` is a data point's matrix `before`, decoded and expanded from
/// parameter bands to subbands.
pub open spec fn point_decoded(
    object: JocObject,
    channel_count: usize,
    point: int,
    before: Seq<[Gain; 64]>,
    after: Seq<[Gain; 64]>,
) -> bool {
    &&& after.len() == before.len()
    &&& forall|channel: int, subband: int|
        0 <= channel < before.len() && 0 <= subband < 64 ==> {
            let band = band_of(object.bands_index->0 as int, subband);
            #[trigger] after[channel]@[subband] == parameter_gain(
                object,
                channel_count,
                point,
                channel,
                band,
                before[channel]@[band],
            )
        }
}

/// Whether the dense parameters of a data point have the right shape.
pub open spec fn dense_point_even(
    matrices: Seq<Vec<Vec<u16>>>,
    channel_count: usize,
    bands: usize,
    point: int,
) -> bool {
    &&& matrices[point]@.len() == channel_count
    &&& forall|channel: int|
        0 <= channel < channel_count ==> (#[trigger] matrices[point]@[channel])@.len() == bands
}

/// Whether the sparse parameters of a data point have the right shape.
pub open spec fn sparse_point_even(
    channel_indices: Seq<Vec<u8>>,
    vectors: Seq<Vec<u16>>,
    bands: usize,
    point: int,
) -> bool {
    channel_indices[point]@.len() == bands && vectors[point]@.len() == bands
}

/// Whether decoding gets as far as a channel of a data point: nothing before it
/// has the wrong shape, nor has it itself. Sparse parameters are those of all
/// channels at once.
pub open spec fn is_reached(
    object: JocObject,
    channel_count: usize,
    point: int,
    channel: int,
) -> bool {
    &&& object.active
    &&& has_parameters(object)
    &&& 0 <= point < object.data_points
    &&& match object.data->0 {
        JocObjectData::Dense { matrices } => {
            &&& matrices@.len() == object.data_points
            &&& forall|before: int|
                0 <= before < point ==> #[trigger] dense_point_even(
                    matrices@,
                    channel_count,
                    object.bands,
                    before,
                )
            &&& matrices@[point]@.len() == channel_count
            &&& 0 <= channel < channel_count
            &&& forall|before: int|
                0 <= before <= channel ==> (#[trigger] matrices@[point]@[before])@.len()
                    == object.bands
        },
        JocObjectData::Sparse { channel_indices, vectors } => {
            &&& channel_indices@.len() == object.data_points
            &&& vectors@.len() == object.data_points
            &&& forall|before: int|
                0 <= before <= point ==> #[trigger] sparse_point_even(
                    channel_indices@,
                    vectors@,
                    object.bands,
                    before,
                )
        },
    }
}

/// `after` is a data point's matrix `before` with the bands of every channel
/// that decoding gets as far as, not yet expanded to subbands.
pub open spec fn point_written(
    object: JocObject,
    channel_count: usize,
    point: int,
    before: Seq<[Gain; 64]>,
    after: Seq<[Gain; 64]>,
) -> bool {
    &&& after.len() == before.len()
    &&& forall|channel: int, band: int|
        0 <= channel < before.len() && 0 <= band < 64 ==> #[trigger] after[channel]@[band] == if
            is_reached(object, channel_count, point, channel) {
            parameter_gain(object, channel_count, point, channel, band, before[channel]@[band])
        } else {
            before[channel]@[band]
        }
}

/// The sizes that an active object's parameters are decoded within, into
/// matrices of `width` channels.
pub open spec fn object_fits(object: JocObject, channel_count: usize, width: int) -> bool {
    object.active && has_parameters(object) ==> {
        &&& object.steep_slope ==> object.timeslot_offsets@.len() <= 2
        &&& forall|point: int, channel: int| #[trigger]
            is_reached(object, channel_count, point, channel) ==> {
                &&& point < 2
                &&& 0 <= channel < width ==> object.bands <= 64
            }
    }
}

/// A quantizer step lies in the quantizer.
proof fn lemma_quantized_range(source: Seq<u16>, table: u8, band: int)
    ensures
        0 <= quantized(source, table, band) < quantizer_steps(table),
{
    if band >= 0 {
        assert(quantizer_steps(table) > 0);
    }
}

/// Sum of the differences up to `band`.
pub open spec fn difference_sum(source: Seq<u16>, band: int) -> int
    decreases band + 1,
{
    if band < 0 {
        0
    } else {
        difference_sum(source, band - 1) + source[band]
    }
}

/// The chain of differences wraps exactly like the integer quantizer: a band
/// stands at the centre plus all differences up to it, around the quantizer, so
/// its gain is between half the quantizer below zero and half above.
pub proof fn dense_chain_wraps_around_the_quantizer(source: Seq<u16>, table: u8, band: int)
    requires
        -1 <= band,
    ensures
        quantized(source, table, band) == (quantizer_centre(table) + difference_sum(source, band))
            % quantizer_steps(table),
        0 <= quantized(source, table, band) < quantizer_steps(table),
        -quantizer_centre(table) <= band_gain(source, table, band).steps < quantizer_centre(table),
    decreases band + 1,
{
    let steps = quantizer_steps(table);
    let centre = quantizer_centre(table);
    lemma_quantized_range(source, table, band);
    if band < 0 {
        lemma_small_mod(centre as nat, steps as nat);
    } else {
        dense_chain_wraps_around_the_quantizer(source, table, band - 1);
        lemma_add_mod_noop_right(
            source[band] as int,
            centre + difference_sum(source, band - 1),
            steps,
        );
    }
}

/// Checks the shape of an object's parameters and gives the band of each
/// subband.
fn check_points(object: &JocObject, channel_count: usize) -> (result: Result<[u8; 64], ParseError>)
    requires
        object.active,
    ensures
        match points_result(*object, channel_count) {
            Ok(_) => result matches Ok(mapping) && maps_bands(
                object.bands_index->0 as int,
                mapping@,
            ),
            Err(reason) => result matches Err(error) && error == reason,
        },
{
    if object.quantization_table.is_none() {
        return Err(ParseError::InvalidHeader("joc_num_quant_idx"));
    }
    match object.data.as_ref() {
        None => {
            return Err(ParseError::InvalidHeader("joc-object-data"));
        },
        Some(JocObjectData::Dense { matrices }) => {
            if matrices.len() != object.data_points {
                return Err(ParseError::InvalidHeader("joc_dense_points"));
            }
            let mut point: usize = 0;
            while point < matrices.len()
                invariant
                    point <= matrices@.len(),
                    matrices@.len() == object.data_points,
                    object.active,
                    has_parameters(*object),
                    object.data->0 == (JocObjectData::Dense { matrices: *matrices }),
                    dense_error(matrices@, channel_count, object.bands, 0) == dense_error(
                        matrices@,
                        channel_count,
                        object.bands,
                        point as int,
                    ),
                decreases matrices.len() - point,
            {
                if matrices[point].len() != channel_count {
                    return Err(ParseError::InvalidHeader("joc_dense_channels"));
                }
                let mut channel: usize = 0;
                while channel < channel_count
                    invariant
                        channel <= channel_count,
                        point < matrices@.len(),
                        matrices@.len() == object.data_points,
                        matrices@[point as int]@.len() == channel_count,
                        object.active,
                        has_parameters(*object),
                        object.data->0 == (JocObjectData::Dense { matrices: *matrices }),
                        dense_error(matrices@, channel_count, object.bands, 0) == dense_error(
                            matrices@,
                            channel_count,
                            object.bands,
                            point as int,
                        ),
                        forall|seen: int|
                            0 <= seen < channel ==> (#[trigger] matrices@[point as int]@[seen])@.len()
                                == object.bands,
                    decreases channel_count - channel,
                {
                    if matrices[point][channel].len() != object.bands {
                        assert(matrices@[point as int]@[channel as int]@.len() != object.bands);
                        return Err(ParseError::InvalidHeader("joc_dense_bands"));
                    }
                    channel = channel + 1;
                }
                point = point + 1;
            }
        },
        Some(JocObjectData::Sparse { channel_indices, vectors }) => {
            if channel_indices.len() != object.data_points || vectors.len() != object.data_points {
                return Err(ParseError::InvalidHeader("joc_sparse_points"));
            }
            let mut point: usize = 0;
            while point < channel_indices.len()
                invariant
                    point <= channel_indices@.len(),
                    channel_indices@.len() == object.data_points == vectors@.len(),
                    object.active,
                    has_parameters(*object),
                    object.data->0 == (JocObjectData::Sparse {
                        channel_indices: *channel_indices,
                        vectors: *vectors,
                    }),
                    forall|seen: int|
                        0 <= seen < point ==> (#[trigger] channel_indices@[seen])@.len()
                            == object.bands,
                    forall|seen: int|
                        0 <= seen < point ==> (#[trigger] vectors@[seen])@.len() == object.bands,
                decreases channel_indices.len() - point,
            {
                if channel_indices[point].len() != object.bands || vectors[point].len()
                    != object.bands {
                    assert(channel_indices@[point as int]@.len() != object.bands
                        || vectors@[point as int]@.len() != object.bands);
                    return Err(ParseError::InvalidHeader("joc_sparse_bands"));
                }
                assert(channel_indices@[point as int]@.len() == object.bands);
                assert(vectors@[point as int]@.len() == object.bands);
                point = point + 1;
            }
        },
    }
    match object.bands_index {
        None => Err(ParseError::InvalidHeader("joc_num_bands_idx")),
        Some(bands_index) => expanded_parameter_band_mapping(bands_index as usize),
    }
}

/// Decodes the bands of one channel into the front of `row`.
fn decode_bands(row: &mut [Gain; 64], source: &Vec<u16>, table: u8)
    requires
        source@.len() <= 64,
    ensures
        forall|band: int|
            0 <= band < 64 ==> #[trigger] final(row)@[band] == if band < source@.len() {
                band_gain(source@, table, band)
            } else {
                old(row)@[band]
            },
{
    let centre: i32 = 48 * (1 + table as i32);
    let steps: i32 = 2 * centre;
    let mut current: i32 = centre;
    let mut band: usize = 0;
    while band < source.len()
        invariant
            band <= source@.len() <= 64,
            centre == quantizer_centre(table),
            steps == quantizer_steps(table),
            48 <= centre <= 0x3000,
            steps == 2 * centre,
            0 <= current < steps,
            current == quantized(source@, table, band - 1),
            forall|seen: int|
                0 <= seen < 64 ==> #[trigger] row@[seen] == if seen < band {
                    band_gain(source@, table, seen)
                } else {
                    old(row)@[seen]
                },
        decreases source.len() - band,
    {
        current = (current + source[band] as i32) % steps;
        row[band] = Gain { steps: current - centre, table };
        band = band + 1;
    }
}

/// Clears the first `bands` gains of `row`.
fn clear_bands(row: &mut [Gain; 64], bands: usize)
    requires
        bands <= 64,
    ensures
        forall|band: int|
            0 <= band < 64 ==> #[trigger] final(row)@[band] == if band < bands {
                no_gain()
            } else {
                old(row)@[band]
            },
{
    let mut band: usize = 0;
    while band < bands
        invariant
            band <= bands <= 64,
            forall|seen: int|
                0 <= seen < 64 ==> #[trigger] row@[seen] == if seen < band {
                    no_gain()
                } else {
                    old(row)@[seen]
                },
        decreases bands - band,
    {
        row[band] = Gain { steps: 0, table: 0 };
        band = band + 1;
    }
}

/// Expands the bands of one channel to subbands, in place. Walking down from
/// the last subband keeps the source of each one unexpanded until it is read.
fn expand_bands(row: &mut [Gain; 64], mapping: &[u8; 64])
    requires
        forall|subband: int| 0 <= subband < 64 ==> #[trigger] mapping@[subband] <= subband,
    ensures
        forall|subband: int|
            0 <= subband < 64 ==> #[trigger] final(row)@[subband] == old(
                row,
            )@[mapping@[subband] as int],
{
    let mut left: usize = 64;
    while left > 0
        invariant
            left <= 64,
            forall|subband: int| 0 <= subband < 64 ==> #[trigger] mapping@[subband] <= subband,
            forall|subband: int|
                left <= subband < 64 ==> #[trigger] row@[subband] == old(
                    row,
                )@[mapping@[subband] as int],
            forall|subband: int| 0 <= subband < left ==> #[trigger] row@[subband] == old(row)@[subband],
        decreases left,
    {
        left = left - 1;
        assert(mapping@[left as int] <= left);
        row[left] = row[mapping[left] as usize];
    }
}

/// Decodes the parameters of data point `point` and expands them to subbands.
fn decode_point(
    matrix: &mut SubbandMatrix,
    object: &JocObject,
    channel_count: usize,
    point: usize,
    mapping: &[u8; 64],
)
    requires
        object.active,
        points_result(*object, channel_count) is Ok,
        object_fits(*object, channel_count, old(matrix)@.len() as int),
        point < object.data_points,
        maps_bands(object.bands_index->0 as int, mapping@),
        old(matrix)@.len() >= channel_count,
    ensures
        point_decoded(*object, channel_count, point as int, old(matrix)@, final(matrix)@),
{
    let count: usize = matrix.len();
    let ghost bands_index = object.bands_index->0 as int;
    proof {
        assert forall|subband: int| 0 <= subband < 64 implies #[trigger] mapping@[subband]
            <= subband by {
            bands_follow_subbands(bands_index, subband, subband);
        }
        if let JocObjectData::Dense { matrices } = object.data->0 {
            lemma_dense_even(matrices@, channel_count, object.bands, 0, point as int);
        }
        lemma_all_reached(*object, channel_count, point as int);
    }
    let mut channel: usize = 0;
    while channel < count
        invariant
            channel <= count,
            count == matrix@.len(),
            count == old(matrix)@.len(),
            count >= channel_count,
            object.active,
            has_parameters(*object),
            object_fits(*object, channel_count, count as int),
            forall|other: int|
                0 <= other < channel_count || object.data->0 is Sparse ==> #[trigger] is_reached(
                    *object,
                    channel_count,
                    point as int,
                    other,
                ),
            points_result(*object, channel_count) is Ok,
            point < object.data_points,
            maps_bands(object.bands_index->0 as int, mapping@),
            bands_index == object.bands_index->0,
            0 <= bands_index < 8,
            forall|subband: int| 0 <= subband < 64 ==> #[trigger] mapping@[subband] <= subband,
            object.data->0 matches JocObjectData::Dense { matrices } ==> {
                &&& matrices@.len() == object.data_points
                &&& matrices@[point as int]@.len() == channel_count
                &&& forall|other: int|
                    0 <= other < channel_count ==> (#[trigger] matrices@[point as int]@[other])@.len()
                        == object.bands
            },
            forall|seen: int, subband: int|
                0 <= seen < channel && 0 <= subband < 64 ==> {
                    let band = band_of(bands_index, subband);
                    #[trigger] matrix@[seen]@[subband] == parameter_gain(
                        *object,
                        channel_count,
                        point as int,
                        seen,
                        band,
                        old(matrix)@[seen]@[band],
                    )
                },
            forall|ahead: int| channel <= ahead < count ==> matrix@[ahead] == old(matrix)@[ahead],
        decreases count - channel,
    {
        let mut row: [Gain; 64] = matrix[channel];
        let ghost before = row@;
        assert((channel < channel_count || object.data->0 is Sparse) ==> is_reached(
            *object,
            channel_count,
            point as int,
            channel as int,
        ));
        match object.data.as_ref() {
            Some(JocObjectData::Dense { matrices }) => {
                if channel < channel_count {
                    if let Some(table) = object.quantization_table {
                        decode_bands(&mut row, &matrices[point][channel], table);
                    }
                }
            },
            Some(JocObjectData::Sparse { .. }) => {
                clear_bands(&mut row, object.bands);
            },
            None => {},
        }
        let ghost decoded = row@;
        assert forall|band: int| 0 <= band < 64 implies #[trigger] decoded[band] == parameter_gain(
            *object,
            channel_count,
            point as int,
            channel as int,
            band,
            before[band],
        ) by {}
        expand_bands(&mut row, mapping);
        matrix[channel] = row;
        proof {
            assert forall|seen: int, subband: int| 0 <= seen < channel + 1 && 0 <= subband
                < 64 implies ({
                let band = band_of(bands_index, subband);
                #[trigger] matrix@[seen]@[subband] == parameter_gain(
                    *object,
                    channel_count,
                    point as int,
                    seen,
                    band,
                    old(matrix)@[seen]@[band],
                )
            }) by {
                if seen == channel {
                    bands_follow_subbands(bands_index, subband, subband);
                    assert(mapping@[subband] == band_of(bands_index, subband));
                    assert(row@[subband] == decoded[mapping@[subband] as int]);
                }
            }
        }
        channel = channel + 1;
    }
}

/// Dense parameters without an error have the right shape at every point.
proof fn lemma_dense_even(
    matrices: Seq<Vec<Vec<u16>>>,
    channel_count: usize,
    bands: usize,
    first: int,
    point: int,
)
    requires
        dense_error(matrices, channel_count, bands, first) is None,
        first <= point < matrices.len(),
    ensures
        matrices[point]@.len() == channel_count,
        forall|channel: int|
            0 <= channel < channel_count ==> (#[trigger] matrices[point]@[channel])@.len() == bands,
    decreases point - first,
{
    if first < point {
        lemma_dense_even(matrices, channel_count, bands, first + 1, point);
    }
}

/// Dense parameters that have the right shape up to `point` are in error as the
/// rest of them is.
proof fn lemma_dense_from(
    matrices: Seq<Vec<Vec<u16>>>,
    channel_count: usize,
    bands: usize,
    first: int,
    point: int,
)
    requires
        0 <= first <= point <= matrices.len(),
        forall|before: int|
            first <= before < point ==> (#[trigger] matrices[before])@.len() == channel_count,
        forall|before: int, channel: int|
            first <= before < point && 0 <= channel < channel_count ==> (
            #[trigger] matrices[before]@[channel])@.len() == bands,
    ensures
        dense_error(matrices, channel_count, bands, first) == dense_error(
            matrices,
            channel_count,
            bands,
            point,
        ),
    decreases point - first,
{
    if first < point {
        assert(matrices[first]@.len() == channel_count);
        lemma_dense_from(matrices, channel_count, bands, first + 1, point);
    }
}

/// The refusal that names a field.
pub open spec fn refused(field: &'static str) -> Result<(), ParseError> {
    Err(ParseError::InvalidHeader(field))
}

/// Dense parameters are accepted exactly where there is a matrix for each data
/// point with a row for each channel and a value for each band, and the object
/// names its quantizer and one of the eight resolutions. What is missing or
/// comes first with the wrong size is named.
pub proof fn dense_shapes_are_checked(
    object: JocObject,
    matrices: Vec<Vec<Vec<u16>>>,
    channel_count: usize,
    point: int,
)
    requires
        object.active,
        object.data == Some(JocObjectData::Dense { matrices }),
        0 <= point < matrices@.len(),
        forall|before: int|
            0 <= before < point ==> (#[trigger] matrices@[before])@.len() == channel_count,
        forall|before: int, channel: int|
            0 <= before < point && 0 <= channel < channel_count ==> (
            #[trigger] matrices@[before]@[channel])@.len() == object.bands,
    ensures
        ({
            let result = points_result(object, channel_count);
            let rows = matrices@[point]@;
            if object.quantization_table is None {
                result == refused("joc_num_quant_idx")
            } else if matrices@.len() != object.data_points {
                result == refused("joc_dense_points")
            } else if rows.len() != channel_count {
                result == refused("joc_dense_channels")
            } else if exists|channel: int|
                0 <= channel < channel_count && (#[trigger] rows[channel])@.len()
                    != object.bands {
                result == refused("joc_dense_bands")
            } else if point + 1 == matrices@.len() {
                match object.bands_index {
                    Some(index) => if index < 8 {
                        result is Ok
                    } else {
                        result == refused("joc_num_bands_idx")
                    },
                    None => result == refused("joc_num_bands_idx"),
                }
            } else {
                true
            }
        }),
{
    lemma_dense_from(matrices@, channel_count, object.bands, 0, point);
    if matrices@[point]@.len() == channel_count && forall|channel: int|
        0 <= channel < channel_count ==> (#[trigger] matrices@[point]@[channel])@.len()
            == object.bands {
        lemma_dense_from(matrices@, channel_count, object.bands, 0, point + 1);
    }
}

/// Sparse parameters are accepted exactly where there is an entry for each band
/// in both lists of each data point, and the object names its quantizer and one
/// of the eight resolutions. An active object without a quantizer or without
/// parameters is refused, one that is not active never is.
pub proof fn sparse_shapes_are_checked(object: JocObject, channel_count: usize)
    ensures
        ({
            let result = points_result(object, channel_count);
            &&& !object.active ==> result is Ok
            &&& object.active && object.quantization_table is None ==> result == refused("joc_num_quant_idx")
            &&& object.active && object.quantization_table is Some && object.data is None
                ==> result == refused("joc-object-data")
            &&& object.active && object.quantization_table is Some ==> (object.data matches Some(
                JocObjectData::Sparse { channel_indices, vectors },
            ) ==> {
                let even = forall|point: int|
                    #![trigger channel_indices@[point]]
                    0 <= point < object.data_points ==> channel_indices@[point]@.len()
                        == object.bands && vectors@[point]@.len() == object.bands;
                if channel_indices@.len() != object.data_points || vectors@.len()
                    != object.data_points {
                    result == refused("joc_sparse_points")
                } else if !even {
                    result == refused("joc_sparse_bands")
                } else {
                    result is Ok <==> (object.bands_index matches Some(index) && index < 8)
                }
            })
        }),
{
    if let Some(JocObjectData::Sparse { channel_indices, vectors }) = object.data {
        if channel_indices@.len() == object.data_points && vectors@.len() == object.data_points {
            let even = forall|point: int|
                #![trigger channel_indices@[point]]
                0 <= point < object.data_points ==> channel_indices@[point]@.len() == object.bands
                    && vectors@[point]@.len() == object.bands;
            assert(even == sparse_is_even(channel_indices@, vectors@, object.bands));
        }
    }
}

/// The rows of an accepted dense object have a value for each band.
pub proof fn even_points_have_their_bands(
    object: JocObject,
    channel_count: usize,
    point: int,
    channel: int,
)
    requires
        object.active,
        points_result(object, channel_count) is Ok,
        object.data->0 is Dense,
        0 <= point < object.data_points,
        0 <= channel < channel_count,
    ensures
        object.data->0->matrices@[point]@[channel]@.len() == object.bands,
{
    lemma_dense_even(object.data->0->matrices@, channel_count, object.bands, 0, point);
}

/// Without an error, decoding gets as far as every channel.
proof fn lemma_all_reached(object: JocObject, channel_count: usize, point: int)
    requires
        object.active,
        points_result(object, channel_count) is Ok,
        0 <= point < object.data_points,
    ensures
        forall|channel: int|
            0 <= channel < channel_count || object.data->0 is Sparse ==> #[trigger] is_reached(
                object,
                channel_count,
                point,
                channel,
            ),
{
    match object.data->0 {
        JocObjectData::Dense { matrices } => {
            assert forall|before: int| 0 <= before <= point implies #[trigger] dense_point_even(
                matrices@,
                channel_count,
                object.bands,
                before,
            ) by {
                lemma_dense_even(matrices@, channel_count, object.bands, 0, before);
            }
            assert(dense_point_even(matrices@, channel_count, object.bands, point));
        },
        JocObjectData::Sparse { channel_indices, vectors } => {
            assert forall|before: int| 0 <= before <= point implies #[trigger] sparse_point_even(
                channel_indices@,
                vectors@,
                object.bands,
                before,
            ) by {
                assert(channel_indices@[before]@.len() == object.bands);
            }
        },
    }
}

/// Whether the dense parameters of a data point have the right shape.
fn is_dense_point_even(
    matrices: &Vec<Vec<Vec<u16>>>,
    channel_count: usize,
    bands: usize,
    point: usize,
) -> (even: bool)
    requires
        point < matrices@.len(),
    ensures
        even == dense_point_even(matrices@, channel_count, bands, point as int),
{
    if matrices[point].len() != channel_count {
        return false;
    }
    let mut channel: usize = 0;
    while channel < channel_count
        invariant
            channel <= channel_count,
            point < matrices@.len(),
            matrices@[point as int]@.len() == channel_count,
            forall|seen: int|
                0 <= seen < channel ==> (#[trigger] matrices@[point as int]@[seen])@.len() == bands,
        decreases channel_count - channel,
    {
        if matrices[point][channel].len() != bands {
            assert(matrices@[point as int]@[channel as int]@.len() != bands);
            return false;
        }
        channel = channel + 1;
    }
    true
}

/// Writes the bands of every channel of data point `point` that decoding gets
/// as far as.
fn write_point(
    matrix: &mut SubbandMatrix,
    object: &JocObject,
    channel_count: usize,
    point: usize,
)
    requires
        object_fits(*object, channel_count, old(matrix)@.len() as int),
        point < 2,
        old(matrix)@.len() >= channel_count,
    ensures
        point_written(*object, channel_count, point as int, old(matrix)@, final(matrix)@),
{
    if !object.active || point >= object.data_points {
        return;
    }
    let table: u8 = match object.quantization_table {
        Some(table) => table,
        None => {
            return;
        },
    };
    match object.data.as_ref() {
        None => {},
        Some(JocObjectData::Dense { matrices }) => {
            if matrices.len() != object.data_points {
                return;
            }
            if point == 1 && !is_dense_point_even(matrices, channel_count, object.bands, 0) {
                assert(!dense_point_even(matrices@, channel_count, object.bands, 0));
                return;
            }
            if matrices[point].len() != channel_count {
                return;
            }
            let mut channel: usize = 0;
            while channel < channel_count
                invariant
                    channel <= channel_count <= matrix@.len(),
                    matrix@.len() == old(matrix)@.len(),
                    object_fits(*object, channel_count, matrix@.len() as int),
                    object.active,
                    object.quantization_table == Some(table),
                    object.data == Some(JocObjectData::Dense { matrices: *matrices }),
                    point < 2,
                    point < object.data_points == matrices@.len(),
                    matrices@[point as int]@.len() == channel_count,
                    point == 1 ==> dense_point_even(
                        matrices@,
                        channel_count,
                        object.bands,
                        0,
                    ),
                    forall|seen: int|
                        0 <= seen < channel ==> (#[trigger] matrices@[point as int]@[seen])@.len()
                            == object.bands,
                    forall|seen: int, band: int|
                        0 <= seen < channel && 0 <= band < 64
                            ==> #[trigger] matrix@[seen]@[band] == parameter_gain(
                            *object,
                            channel_count,
                            point as int,
                            seen,
                            band,
                            old(matrix)@[seen]@[band],
                        ),
                    forall|ahead: int|
                        channel <= ahead < matrix@.len() ==> #[trigger] matrix@[ahead]
                            == old(matrix)@[ahead],
                decreases channel_count - channel,
            {
                if matrices[point][channel].len() != object.bands {
                    assert(matrices@[point as int]@[channel as int]@.len() != object.bands);
                    proof {
                        assert forall|other: int| channel <= other implies !is_reached(
                            *object,
                            channel_count,
                            point as int,
                            other,
                        ) by {}
                        assert forall|other: int| 0 <= other < channel implies is_reached(
                            *object,
                            channel_count,
                            point as int,
                            other,
                        ) by {}
                    }
                    return;
                }
                assert(matrices@[point as int]@[channel as int]@.len() == object.bands);
                assert(is_reached(*object, channel_count, point as int, channel as int));
                let mut row: [Gain; 64] = matrix[channel];
                decode_bands(&mut row, &matrices[point][channel], table);
                matrix[channel] = row;
                channel = channel + 1;
            }
            proof {
                assert forall|other: int| 0 <= other < channel_count implies is_reached(
                    *object,
                    channel_count,
                    point as int,
                    other,
                ) by {}
            }
        },
        Some(JocObjectData::Sparse { channel_indices, vectors }) => {
            if channel_indices.len() != object.data_points || vectors.len() != object.data_points {
                return;
            }
            let mut before: usize = 0;
            while before <= point
                invariant
                    before <= point + 1,
                    point < 2,
                    point < object.data_points,
                    channel_indices@.len() == vectors@.len() == object.data_points,
                    object.data == Some(
                        JocObjectData::Sparse {
                            channel_indices: *channel_indices,
                            vectors: *vectors,
                        },
                    ),
                    matrix@ == old(matrix)@,
                    forall|seen: int|
                        0 <= seen < before ==> #[trigger] sparse_point_even(
                            channel_indices@,
                            vectors@,
                            object.bands,
                            seen,
                        ),
                decreases point + 1 - before,
            {
                if channel_indices[before].len() != object.bands || vectors[before].len()
                    != object.bands {
                    assert(!sparse_point_even(
                        channel_indices@,
                        vectors@,
                        object.bands,
                        before as int,
                    ));
                    return;
                }
                before = before + 1;
            }
            let mut channel: usize = 0;
            while channel < matrix.len()
                invariant
                    channel <= matrix@.len() == old(matrix)@.len(),
                    object_fits(*object, channel_count, matrix@.len() as int),
                    forall|other: int| #[trigger]
                        is_reached(*object, channel_count, point as int, other),
                    object.data is Some,
                    object.data->0 is Sparse,
                    forall|seen: int, band: int|
                        0 <= seen < channel && 0 <= band < 64
                            ==> #[trigger] matrix@[seen]@[band] == parameter_gain(
                            *object,
                            channel_count,
                            point as int,
                            seen,
                            band,
                            old(matrix)@[seen]@[band],
                        ),
                    forall|ahead: int|
                        channel <= ahead < matrix@.len() ==> #[trigger] matrix@[ahead]
                            == old(matrix)@[ahead],
                decreases matrix.len() - channel,
            {
                assert(is_reached(*object, channel_count, point as int, channel as int));
                let mut row: [Gain; 64] = matrix[channel];
                clear_bands(&mut row, object.bands);
                matrix[channel] = row;
                channel = channel + 1;
            }
        },
    }
}

/// Decodes the mixing parameters of an object, one matrix for each of its data
/// points, expanded from parameter bands to subbands.
///
/// An object that is not active leaves everything as it was. An error leaves
/// what was decoded before it, without the expansion.
pub fn decode_parameter_points(
    mix_matrix: &mut [SubbandMatrix; 2],
    timeslot_offsets: &mut [u8; 2],
    object: &JocObject,
    channel_count: usize,
) -> (result: Result<(), ParseError>)
    requires
        object_fits(*object, channel_count, old(mix_matrix)@[0]@.len() as int),
        object_fits(*object, channel_count, old(mix_matrix)@[1]@.len() as int),
        old(mix_matrix)@[0]@.len() >= channel_count,
        old(mix_matrix)@[1]@.len() >= channel_count,
    ensures
        result == points_result(*object, channel_count),
        final(timeslot_offsets)@ == offsets_after(*object, old(timeslot_offsets)@),
        forall|point: int|
            0 <= point < 2 ==> point_after(
                *object,
                channel_count,
                point,
                old(mix_matrix)@[point]@,
                (#[trigger] final(mix_matrix)@[point])@,
            ),
{
    if !object.active {
        return Ok(());
    }
    if object.steep_slope && object.quantization_table.is_some() && object.data.is_some() {
        let mut slot: usize = 0;
        while slot < object.timeslot_offsets.len()
            invariant
                slot <= object.timeslot_offsets@.len() <= 2,
                forall|seen: int|
                    0 <= seen < 2 ==> #[trigger] timeslot_offsets@[seen] == if seen < slot {
                        object.timeslot_offsets@[seen]
                    } else {
                        old(timeslot_offsets)@[seen]
                    },
            decreases object.timeslot_offsets.len() - slot,
        {
            timeslot_offsets[slot] = object.timeslot_offsets[slot];
            slot = slot + 1;
        }
    }
    assert(timeslot_offsets@ =~= offsets_after(*object, old(timeslot_offsets)@));
    let mapping: [u8; 64] = match check_points(object, channel_count) {
        Ok(mapping) => mapping,
        Err(error) => {
            write_point(&mut mix_matrix[0], object, channel_count, 0);
            write_point(&mut mix_matrix[1], object, channel_count, 1);
            return Err(error);
        },
    };
    if object.data_points > 0 {
        decode_point(&mut mix_matrix[0], object, channel_count, 0, &mapping);
    }
    if object.data_points > 1 {
        decode_point(&mut mix_matrix[1], object, channel_count, 1, &mapping);
    }
    Ok(())
}

/// What decoding an object's parameters makes of the matrix of a data point.
pub open spec fn point_after(
    object: JocObject,
    channel_count: usize,
    point: int,
    before: Seq<[Gain; 64]>,
    after: Seq<[Gain; 64]>,
) -> bool {
    if points_result(object, channel_count) is Err {
        point_written(object, channel_count, point, before, after)
    } else if object.active && point < object.data_points {
        point_decoded(object, channel_count, point, before, after)
    } else {
        after == before
    }
}

} // verus!
