//! Laws of the mixing parameters: which gain a subband plays with, and which
//! matrix a timeslot is mixed by.

use crate::eac3::joc::{
    band_of, bands_follow_subbands, dense_chain_wraps_around_the_quantizer, dense_point_even,
    difference_sum, is_reached, offsets_after, point_after, points_result, Gain,
};
use crate::eac3::reconstruction::{slot_mix, MixSource, SlotMix};
use crate::eac3::types::{JocObject, JocObjectData};
use vstd::prelude::*;

verus! {

/// Whether a new parameter band starts at `subband`, at each of the eight
/// resolutions of 1, 3, 5, 7, 9, 12, 15 and 23 bands.
pub open spec fn band_boundary(bands_index: int, subband: int) -> bool {
    if bands_index == 0 {
        false
    } else if bands_index == 1 {
        subband == 3 || subband == 14
    } else if bands_index == 2 {
        subband == 1 || subband == 3 || subband == 9 || subband == 23
    } else if bands_index == 3 {
        1 <= subband <= 2 || subband == 4 || subband == 8 || subband == 14 || subband == 23
    } else if bands_index == 4 {
        1 <= subband <= 3 || subband == 5 || subband == 7 || subband == 9 || subband == 14
            || subband == 23
    } else if bands_index == 5 {
        1 <= subband <= 4 || subband == 6 || subband == 8 || subband == 11 || subband == 14
            || subband == 18 || subband == 23 || subband == 35
    } else if bands_index == 6 {
        1 <= subband <= 9 || subband == 11 || subband == 14 || subband == 18 || subband == 23
            || subband == 35
    } else {
        1 <= subband <= 12 || subband == 14 || subband == 16 || subband == 18 || subband == 20
            || subband == 23 || subband == 26 || subband == 30 || subband == 35 || subband == 41
            || subband == 48
    }
}

/// The first subband lies in the first band, and from each subband to the next
/// the band goes up by one at the boundaries of the resolution and stays the
/// same everywhere else.
pub proof fn bands_change_at_their_boundaries(bands_index: int, subband: int)
    requires
        0 <= bands_index < 8,
        0 < subband < 64,
    ensures
        band_of(bands_index, 0) == 0,
        band_of(bands_index, subband) == band_of(bands_index, subband - 1) + if band_boundary(
            bands_index,
            subband,
        ) {
            1int
        } else {
            0
        },
{
    crate::eac3::joc::band_is_last_started(bands_index, 0);
    crate::eac3::joc::band_is_last_started(bands_index, subband);
    crate::eac3::joc::band_is_last_started(bands_index, subband - 1);
}

/// A steep object switches at its offsets and at no other timeslot: it plays
/// the previous matrix before the first, then the first data point, and with
/// two data points the second from the second offset on. Whatever it plays, it
/// plays as it is.
pub proof fn steep_frames_switch_at_their_offsets(
    object: JocObject,
    offsets: Seq<u8>,
    timeslots: int,
    slot: int,
)
    requires
        object.active,
        object.steep_slope,
        1 <= object.data_points <= 2,
        offsets.len() == 2,
        0 <= slot < timeslots,
    ensures
        slot_mix(object, offsets, timeslots, slot) matches SlotMix::Blend {
            from,
            to,
            numerator,
            denominator,
        } && from == to && numerator == denominator && denominator > 0 && {
            &&& from == MixSource::Previous <==> slot < offsets[0]
            &&& from == MixSource::Second <==> object.data_points == 2 && slot >= offsets[0]
                && slot >= offsets[1]
        },
{
}

/// An object is mixed with no gain at all exactly where it is not active.
pub proof fn only_inactive_objects_are_silent(
    object: JocObject,
    offsets: Seq<u8>,
    timeslots: int,
    slot: int,
)
    ensures
        slot_mix(object, offsets, timeslots, slot) is Silent <==> !object.active,
{
}

/// A smooth frame ramps evenly. With one data point, timeslot `slot` has gone
/// `(slot + 1) / timeslots` of the way from the previous matrix to it. With two,
/// the first half of the timeslots goes to the first and the others go on to the
/// second in the same way.
pub proof fn smooth_frames_ramp_evenly(
    object: JocObject,
    offsets: Seq<u8>,
    timeslots: int,
    slot: int,
)
    requires
        object.active,
        !object.steep_slope,
        1 <= object.data_points <= 2,
        0 <= slot < timeslots <= usize::MAX,
    ensures
        slot_mix(object, offsets, timeslots, slot) matches SlotMix::Blend {
            from,
            to,
            numerator,
            denominator,
        } && denominator > 0 && if object.data_points == 1 {
            &&& from == MixSource::Previous
            &&& to == MixSource::First
            &&& numerator * timeslots == (slot + 1) * denominator
        } else if slot < timeslots / 2 || timeslots == 1 {
            &&& from == MixSource::Previous
            &&& to == MixSource::First
            &&& timeslots > 1 ==> numerator * (timeslots / 2) == (slot + 1) * denominator
            &&& timeslots == 1 ==> numerator == denominator
        } else {
            &&& from == MixSource::First
            &&& to == MixSource::Second
            &&& numerator * (timeslots - timeslots / 2) == (slot + 1 - timeslots / 2) * denominator
        },
{
}

/// Two subbands of one parameter band play with one gain, in every channel of
/// every data point that is decoded.
pub proof fn bands_play_with_one_gain(
    object: JocObject,
    channel_count: usize,
    point: int,
    before: Seq<[Gain; 64]>,
    after: Seq<[Gain; 64]>,
    channel: int,
    subband: int,
)
    requires
        object.active,
        points_result(object, channel_count) is Ok,
        0 <= point < object.data_points,
        point_after(object, channel_count, point, before, after),
        0 <= channel < before.len(),
        0 < subband < 64,
        !band_boundary(object.bands_index->0 as int, subband),
    ensures
        after.len() == before.len(),
        after[channel]@[subband] == after[channel]@[subband - 1],
{
    bands_change_at_their_boundaries(object.bands_index->0 as int, subband);
}

/// Sum of the differences of a channel up to `band`.
pub open spec fn sum_up_to(source: Seq<u16>, band: int) -> int {
    source.take(band + 1).fold_left(0int, |sum: int, difference: u16| sum + difference)
}

/// The sum grows by one difference from band to band.
proof fn lemma_sum(source: Seq<u16>, band: int)
    requires
        -1 <= band < source.len(),
    ensures
        sum_up_to(source, band) == difference_sum(source, band),
    decreases band + 1,
{
    reveal_with_fuel(Seq::fold_left, 2);
    if band >= 0 {
        lemma_sum(source, band - 1);
        assert(source.take(band + 1).drop_last() =~= source.take(band));
        assert(source.take(band + 1).last() == source[band]);
    }
}

/// The gain of a dense object in a subband is what the differences of its bands
/// add up to, up to the band of the subband: it lies in the quantizer, which has
/// 96 steps or 192 around no gain, and differs from the sum by whole turns.
pub proof fn dense_gains_add_up(
    object: JocObject,
    channel_count: usize,
    point: int,
    before: Seq<[Gain; 64]>,
    after: Seq<[Gain; 64]>,
    channel: int,
    subband: int,
)
    requires
        object.active,
        points_result(object, channel_count) is Ok,
        0 <= point < object.data_points,
        point_after(object, channel_count, point, before, after),
        0 <= channel < channel_count,
        channel < before.len(),
        0 <= subband < 64,
        object.data->0 is Dense,
        band_of(object.bands_index->0 as int, subband) < object.bands,
    ensures
        ({
            let gain = after[channel]@[subband];
            let turn = 96 * (1 + object.quantization_table->0);
            let source = object.data->0->matrices@[point]@[channel]@;
            let band = band_of(object.bands_index->0 as int, subband);
            &&& gain.table == object.quantization_table->0
            &&& -turn <= 2 * gain.steps < turn
            &&& (gain.steps - sum_up_to(source, band)) % turn == 0
        }),
{
    let table = object.quantization_table->0;
    let turn: int = 96 * (1 + table);
    let source = object.data->0->matrices@[point]@[channel]@;
    let band = band_of(object.bands_index->0 as int, subband);
    bands_follow_subbands(object.bands_index->0 as int, subband, subband);
    dense_chain_wraps_around_the_quantizer(source, table, band);
    crate::eac3::joc::even_points_have_their_bands(object, channel_count, point, channel);
    lemma_sum(source, band);
    let sum = 48 * (1 + table) + difference_sum(source, band);
    vstd::arithmetic::div_mod::lemma_fundamental_div_mod(sum, turn);
    let turns = sum / turn;
    let steps = after[channel]@[subband].steps;
    assert(steps - difference_sum(source, band) == turn * (-turns)) by (nonlinear_arith)
        requires
            sum == turn * turns + (sum % turn),
            steps == (sum % turn) - 48 * (1 + table),
            sum == 48 * (1 + table) + difference_sum(source, band),
    ;
    vstd::arithmetic::div_mod::lemma_mod_multiples_basic(-turns, turn);
    assert(turn * (-turns) == (-turns) * turn) by (nonlinear_arith);
}

/// A sparse object is silent in every subband of its bands.
pub proof fn sparse_gains_are_silent(
    object: JocObject,
    channel_count: usize,
    point: int,
    before: Seq<[Gain; 64]>,
    after: Seq<[Gain; 64]>,
    channel: int,
    subband: int,
)
    requires
        object.active,
        points_result(object, channel_count) is Ok,
        0 <= point < object.data_points,
        point_after(object, channel_count, point, before, after),
        0 <= channel < before.len(),
        0 <= subband < 64,
        object.data->0 is Sparse,
        band_of(object.bands_index->0 as int, subband) < object.bands,
    ensures
        after[channel]@[subband].steps == 0,
{
    bands_follow_subbands(object.bands_index->0 as int, subband, subband);
}

/// An object that is not active, and a data point that it does not have, leave
/// the matrix as it was.
pub proof fn absent_points_change_nothing(
    object: JocObject,
    channel_count: usize,
    point: int,
    before: Seq<[Gain; 64]>,
    after: Seq<[Gain; 64]>,
)
    requires
        point_after(object, channel_count, point, before, after),
        !object.active || points_result(object, channel_count) is Ok && point
            >= object.data_points,
    ensures
        after =~= before,
{
    if points_result(object, channel_count) is Err {
        assert(false);
    }
}

/// The offsets of a steep object replace those before it, as many as it
/// transmits; a smooth object has none and leaves them.
pub proof fn offsets_come_from_steep_objects(object: JocObject, before: Seq<u8>, slot: int)
    requires
        0 <= slot < before.len(),
        object.active,
        object.quantization_table is Some,
        object.data is Some,
    ensures
        offsets_after(object, before).len() == before.len(),
        object.steep_slope && slot < object.timeslot_offsets@.len() ==> offsets_after(
            object,
            before,
        )[slot] == object.timeslot_offsets@[slot],
        !object.steep_slope || slot >= object.timeslot_offsets@.len() ==> offsets_after(
            object,
            before,
        )[slot] == before[slot],
{
}

/// Where an object is in error, a channel whose rows and all those before it have
/// the right size holds the gains of its bands, one for each, and every other
/// channel is as it was.
pub proof fn errors_leave_the_rows_that_were_read(
    object: JocObject,
    matrices: Vec<Vec<Vec<u16>>>,
    channel_count: usize,
    point: int,
    before: Seq<[Gain; 64]>,
    after: Seq<[Gain; 64]>,
    channel: int,
    band: int,
)
    requires
        object.active,
        object.quantization_table is Some,
        object.data == Some(JocObjectData::Dense { matrices }),
        points_result(object, channel_count) is Err,
        point_after(object, channel_count, point, before, after),
        0 <= point < object.data_points,
        0 <= channel < before.len(),
        0 <= band < 64,
    ensures
        ({
            let even = matrices@.len() == object.data_points && (forall|earlier: int, row: int|
                0 <= earlier < point && 0 <= row < channel_count ==> (
                #[trigger] matrices@[earlier]@[row])@.len() == object.bands) && (forall|
                earlier: int,
            |
                0 <= earlier <= point ==> (#[trigger] matrices@[earlier])@.len() == channel_count)
                && channel < channel_count && (forall|row: int|
                0 <= row <= channel ==> (#[trigger] matrices@[point]@[row])@.len()
                    == object.bands);
            let turn = 96 * (1 + object.quantization_table->0);
            let gain = after[channel]@[band];
            &&& after.len() == before.len()
            &&& even && band < object.bands ==> {
                &&& gain.table == object.quantization_table->0
                &&& -turn <= 2 * gain.steps < turn
                &&& (gain.steps - sum_up_to(matrices@[point]@[channel]@, band)) % turn == 0
            }
            &&& even && band >= object.bands ==> gain == before[channel]@[band]
            &&& !even ==> gain == before[channel]@[band]
        }),
{
    let even = matrices@.len() == object.data_points && (forall|earlier: int, row: int|
        0 <= earlier < point && 0 <= row < channel_count ==> (
        #[trigger] matrices@[earlier]@[row])@.len() == object.bands) && (forall|earlier: int|
        0 <= earlier <= point ==> (#[trigger] matrices@[earlier])@.len() == channel_count)
        && channel < channel_count && (forall|row: int|
        0 <= row <= channel ==> (#[trigger] matrices@[point]@[row])@.len() == object.bands);
    let reached = is_reached(object, channel_count, point, channel);
    if even {
        assert forall|earlier: int| 0 <= earlier < point implies #[trigger] dense_point_even(
            matrices@,
            channel_count,
            object.bands,
            earlier,
        ) by {
            assert(matrices@[earlier]@.len() == channel_count);
        }
        assert(matrices@[point]@.len() == channel_count);
        assert(reached);
    }
    if reached {
        assert forall|earlier: int, row: int|
            0 <= earlier < point && 0 <= row < channel_count implies (
        #[trigger] matrices@[earlier]@[row])@.len() == object.bands by {
            assert(dense_point_even(matrices@, channel_count, object.bands, earlier));
        }
        assert forall|earlier: int| 0 <= earlier <= point implies (
        #[trigger] matrices@[earlier])@.len() == channel_count by {
            if earlier < point {
                assert(dense_point_even(matrices@, channel_count, object.bands, earlier));
            }
        }
        assert(even);
    }
    assert(after[channel]@[band] == if reached {
        crate::eac3::joc::parameter_gain(
            object,
            channel_count,
            point,
            channel,
            band,
            before[channel]@[band],
        )
    } else {
        before[channel]@[band]
    });
    if reached && band < object.bands {
        let table = object.quantization_table->0;
        let turn: int = 96 * (1 + table);
        let source = matrices@[point]@[channel]@;
        dense_chain_wraps_around_the_quantizer(source, table, band);
        lemma_sum(source, band);
        let sum = 48 * (1 + table) + difference_sum(source, band);
        vstd::arithmetic::div_mod::lemma_fundamental_div_mod(sum, turn);
        let turns = sum / turn;
        let steps = after[channel]@[band].steps;
        assert(steps - difference_sum(source, band) == turn * (-turns)) by (nonlinear_arith)
            requires
                sum == turn * turns + (sum % turn),
                steps == (sum % turn) - 48 * (1 + table),
                sum == 48 * (1 + table) + difference_sum(source, band),
        ;
        vstd::arithmetic::div_mod::lemma_mod_multiples_basic(-turns, turn);
        assert(turn * (-turns) == (-turns) * turn) by (nonlinear_arith);
    }
}

} // verus!
