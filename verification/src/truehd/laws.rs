//! Laws of block parsing that span its functions.

use crate::truehd::bits::{
    bits_left, bits_value, bits_value_in_range, signed_bits_value, HuffmanBook,
};
use crate::truehd::block::{
    read_block_size, read_body, read_channels, read_header, read_matrixing, read_output_shift,
    read_quantiser_step_size, read_shifts, read_steps, HeaderContext, HeaderModel, HeaderStage,
};
use crate::truehd::samples::{
    bypass_bits, read_bypassed, read_row, read_rows, read_sample, read_samples, zero_row,
    WIDE_SYNC_WORD,
};
use crate::truehd::state::{ParserState, ParserSubstreamState};
use crate::truehd::timing::{
    timing_fits, timing_recorded, timing_result, unwrapped_output_timing,
};
use vstd::arithmetic::power2::{lemma2_to64, lemma_pow2_pos, lemma_pow2_strictly_increases, pow2};
use vstd::prelude::*;

verus! {

/// Every sample of `row` is a 24-bit number.
pub open spec fn fits_24_bits(row: Seq<i32>) -> bool {
    forall|channel: int|
        0 <= channel < row.len() ==> -0x80_0000 <= #[trigger] row[channel] < 0x80_0000
}

/// `row` is zero in every channel outside `first..=last`.
pub open spec fn zero_outside(row: Seq<i32>, first: int, last: int) -> bool {
    forall|channel: int|
        0 <= channel < row.len() && (channel < first || last < channel) ==> #[trigger] row[channel]
            == 0
}

/// A row of samples keeps its width, is zero outside the substream's channels
/// and, where samples are checked, holds 24-bit samples only.
pub proof fn sample_rows_are_bounded(
    substream: ParserSubstreamState,
    books: Seq<HuffmanBook>,
    data: Seq<u8>,
    position: int,
    channel: int,
    row: Seq<i32>,
)
    requires
        substream.min_chan <= channel,
        substream.max_chan < row.len(),
        zero_outside(row, substream.min_chan as int, substream.max_chan as int),
        fits_24_bits(row),
    ensures
        read_samples(substream, books, data, position, channel, row) matches Ok((samples, _))
            ==> {
            &&& samples.len() == row.len()
            &&& zero_outside(samples, substream.min_chan as int, substream.max_chan as int)
            &&& substream.restart_sync_word != WIDE_SYNC_WORD ==> fits_24_bits(samples)
        },
    decreases substream.max_chan + 1 - channel,
{
    if channel <= substream.max_chan {
        if let Ok((sample, behind)) = read_sample(substream, books, data, position, channel) {
            if substream.restart_sync_word != WIDE_SYNC_WORD {
                sample_rows_are_bounded(
                    substream,
                    books,
                    data,
                    behind,
                    channel + 1,
                    row.update(channel, sample),
                );
            } else {
                samples_stay_in_channels(
                    substream,
                    books,
                    data,
                    behind,
                    channel + 1,
                    row.update(channel, sample),
                );
            }
        }
    }
}

/// A row of samples keeps its width and is zero outside the substream's
/// channels.
proof fn samples_stay_in_channels(
    substream: ParserSubstreamState,
    books: Seq<HuffmanBook>,
    data: Seq<u8>,
    position: int,
    channel: int,
    row: Seq<i32>,
)
    requires
        substream.min_chan <= channel,
        substream.max_chan < row.len(),
        zero_outside(row, substream.min_chan as int, substream.max_chan as int),
    ensures
        read_samples(substream, books, data, position, channel, row) matches Ok((samples, _))
            ==> {
            &&& samples.len() == row.len()
            &&& zero_outside(samples, substream.min_chan as int, substream.max_chan as int)
        },
    decreases substream.max_chan + 1 - channel,
{
    if channel <= substream.max_chan {
        if let Ok((sample, behind)) = read_sample(substream, books, data, position, channel) {
            samples_stay_in_channels(
                substream,
                books,
                data,
                behind,
                channel + 1,
                row.update(channel, sample),
            );
        }
    }
}

/// Every entry of `row` fits the width of its matrix.
pub open spec fn fits_widths(substream: ParserSubstreamState, row: Seq<i32>) -> bool {
    forall|matrix: int|
        0 <= matrix < row.len() && matrix < substream.primitive_matrices ==> 0
            <= #[trigger] row[matrix] < pow2(bypass_bits(substream, matrix) as nat)
}

/// A row of zeros fits any width.
proof fn lemma_zero_fits(substream: ParserSubstreamState)
    ensures
        fits_widths(substream, zero_row()),
{
    assert forall|matrix: int|
        0 <= matrix < zero_row().len() && matrix < substream.primitive_matrices implies 0
        <= #[trigger] zero_row()[matrix] < pow2(bypass_bits(substream, matrix) as nat) by {
        lemma_pow2_pos(bypass_bits(substream, matrix) as nat);
    }
}

/// A row of bypassed LSBs keeps its width, is zero behind the primitive
/// matrices, and holds of each matrix no more bits than its own width.
pub proof fn bypassed_rows_are_bounded(
    substream: ParserSubstreamState,
    data: Seq<u8>,
    position: int,
    matrix: int,
    row: Seq<i32>,
)
    requires
        0 <= matrix,
        substream.primitive_matrices <= row.len(),
        zero_outside(row, 0, substream.primitive_matrices - 1),
        fits_widths(substream, row),
    ensures
        read_bypassed(substream, data, position, matrix, row) matches Ok((lsbs, _)) ==> {
            &&& lsbs.len() == row.len()
            &&& zero_outside(lsbs, 0, substream.primitive_matrices - 1)
            &&& fits_widths(substream, lsbs)
        },
    decreases substream.primitive_matrices - matrix,
{
    let width = bypass_bits(substream, matrix);
    if matrix < substream.primitive_matrices && width <= 8 && bits_left(data, position, width) {
        let value = bits_value(data, position, width as nat);
        bits_value_in_range(data, position, width as nat);
        lemma2_to64();
        if width < 8 {
            lemma_pow2_strictly_increases(width as nat, 8);
        }
        bypassed_rows_are_bounded(
            substream,
            data,
            position + width,
            matrix + 1,
            row.update(matrix, value as i32),
        );
    }
}

/// The rows behind `row` that a block holds are those it held before its data
/// was read, and every row that was read is zero outside the substream's
/// channels and, where samples are checked, holds 24-bit samples only. Every row
/// of bypassed LSBs fits the widths of its matrices.
pub proof fn rows_are_bounded(
    substream: ParserSubstreamState,
    books: Seq<HuffmanBook>,
    data: Seq<u8>,
    position: int,
    row: int,
    lsbs: Seq<Seq<i32>>,
    samples: Seq<Seq<i32>>,
)
    requires
        0 <= row,
        substream.max_chan < 16,
        substream.primitive_matrices <= 16,
        samples.len() == lsbs.len(),
        substream.block_size <= samples.len(),
    ensures
        read_rows(substream, books, data, position, row, lsbs, samples) matches Ok(
            (all_lsbs, all_samples, _),
        ) ==> {
            &&& all_lsbs.len() == lsbs.len()
            &&& all_samples.len() == samples.len()
            &&& forall|other: int|
                0 <= other < samples.len() && (other < row || substream.block_size <= other)
                    ==> #[trigger] all_samples[other] == samples[other]
            &&& forall|other: int|
                0 <= other < lsbs.len() && (other < row || substream.block_size <= other)
                    ==> #[trigger] all_lsbs[other] == lsbs[other]
            &&& forall|other: int|
                row <= other < substream.block_size ==> {
                    &&& (#[trigger] all_samples[other]).len() == 16
                    &&& zero_outside(
                        all_samples[other],
                        substream.min_chan as int,
                        substream.max_chan as int,
                    )
                    &&& substream.restart_sync_word != WIDE_SYNC_WORD ==> fits_24_bits(
                        all_samples[other],
                    )
                }
            &&& forall|other: int|
                row <= other < substream.block_size ==> {
                    &&& (#[trigger] all_lsbs[other]).len() == 16
                    &&& zero_outside(all_lsbs[other], 0, substream.primitive_matrices - 1)
                    &&& fits_widths(substream, all_lsbs[other])
                }
        },
    decreases substream.block_size - row,
{
    if row < substream.block_size {
        if let Ok((row_lsbs, row_samples, end)) = read_row(substream, books, data, position) {
            lemma_zero_fits(substream);
            bypassed_rows_are_bounded(substream, data, position, 0, zero_row());
            if let Ok((_, behind)) = read_bypassed(substream, data, position, 0, zero_row()) {
                sample_rows_are_bounded(
                    substream,
                    books,
                    data,
                    behind,
                    substream.min_chan as int,
                    zero_row(),
                );
            }
            rows_are_bounded(
                substream,
                books,
                data,
                end,
                row + 1,
                lsbs.update(row, row_lsbs),
                samples.update(row, row_samples),
            );
        }
    }
}

/// The timing history stays in its ring, and from one access unit to the next
/// the unwrapped output timing grows by exactly the samples of an access unit.
pub proof fn output_timing_grows_steadily(
    before: ParserState,
    after: ParserState,
)
    requires
        before.has_substream(),
        timing_fits(&before),
        timing_result(&before) is Ok,
        timing_recorded(&before, after.substream()),
        after.has_parsed_au,
        after.samples_per_au == before.samples_per_au,
    ensures
        after.substream().history_index < 128,
        unwrapped_output_timing(&after) == unwrapped_output_timing(&before)
            + before.samples_per_au,
{
    let index = before.substream().history_index as int;
    assert(((index + 1) % 128 + 127) % 128 == index);
}

/// Of the parameters that a block header holds, those without a guard are in
/// `after` as in `before`.
pub open spec fn keeps_unguarded(
    context: HeaderContext,
    before: HeaderModel,
    after: HeaderModel,
) -> bool {
    &&& !context.guards.block_size ==> {
        &&& after.block_size == before.block_size
        &&& after.new_block_size == before.new_block_size
    }
    &&& !context.guards.output_shift ==> {
        &&& after.output_shift == before.output_shift
        &&& after.new_output_shift == before.new_output_shift
    }
    &&& !context.guards.quantiser_step_size ==> {
        &&& after.quantiser_step_size == before.quantiser_step_size
        &&& after.new_quantiser_step_size == before.new_quantiser_step_size
    }
}

/// The sizes of the model are those of a substream with sixteen channels.
pub open spec fn model_fits(context: HeaderContext, model: HeaderModel) -> bool {
    &&& context.max_chan < 16
    &&& context.max_matrix_chan < 16
    &&& model.output_shift.len() == 16
    &&& model.new_output_shift.len() == 16
    &&& model.quantiser_step_size.len() == 16
    &&& model.new_quantiser_step_size.len() == 16
}

/// What the header says is new is what the parser goes by.
pub open spec fn header_agrees(model: HeaderModel) -> bool {
    &&& model.new_block_size matches Some(size) ==> size == model.block_size
    &&& forall|channel: int|
        0 <= channel < 16 ==> (#[trigger] model.new_output_shift[channel] matches Some(shift)
            ==> shift == model.output_shift[channel])
    &&& forall|channel: int|
        0 <= channel < 16 ==> (#[trigger] model.new_quantiser_step_size[channel] matches Some(step)
            ==> step == model.quantiser_step_size[channel])
}

/// Every value that the header says is new is within its limit.
pub open spec fn header_in_range(context: HeaderContext, model: HeaderModel) -> bool {
    &&& model.new_block_size matches Some(size) ==> 8 <= size <= 160 && size
        <= context.samples_per_au
    &&& forall|channel: int|
        0 <= channel < 16 ==> (#[trigger] model.new_output_shift[channel] matches Some(shift)
            ==> shift <= context.max_shift)
}

/// What holds from one step of reading a header to a later one.
spec fn header_steps(context: HeaderContext, before: HeaderModel, after: HeaderModel) -> bool {
    &&& before.position <= after.position
    &&& keeps_unguarded(context, before, after)
    &&& model_fits(context, after)
    &&& header_agrees(before) ==> header_agrees(after)
    &&& header_in_range(context, before) ==> header_in_range(context, after)
}

/// The channels' flags change nothing but the position.
proof fn lemma_channels_step(context: HeaderContext, model: HeaderModel, channel: int)
    ensures
        ({
            let after = read_channels(context, model, channel).0;
            &&& model.position <= after.position
            &&& after == (HeaderModel { position: after.position, ..model })
        }),
    decreases context.max_chan + 1 - channel,
{
    if channel <= context.max_chan && bits_left(context.data, model.position, 1) {
        lemma_channels_step(
            context,
            HeaderModel { position: model.position + 1, ..model },
            channel + 1,
        );
    }
}

/// The quantiser step sizes keep what the header says in step.
proof fn lemma_steps_step(context: HeaderContext, model: HeaderModel, channel: int)
    requires
        context.guards.quantiser_step_size,
        model_fits(context, model),
        0 <= channel,
    ensures
        header_steps(context, model, read_steps(context, model, channel).0),
    decreases context.max_chan + 1 - channel,
{
    if channel > context.max_chan {
        lemma_channels_step(context, model, context.min_chan as int);
    } else if bits_left(context.data, model.position, 4) {
        let step = bits_value(context.data, model.position, 4) as u32;
        let next = HeaderModel {
            position: model.position + 4,
            quantiser_step_size: model.quantiser_step_size.update(channel, step),
            new_quantiser_step_size: model.new_quantiser_step_size.update(channel, Some(step)),
            ..model
        };
        lemma_steps_step(context, next, channel + 1);
    }
}

/// What follows the output shifts keeps what the header says in step.
proof fn lemma_behind_shifts(context: HeaderContext, model: HeaderModel)
    requires
        model_fits(context, model),
    ensures
        header_steps(context, model, read_quantiser_step_size(context, model).0),
{
    let past = HeaderModel { position: model.position + 1, ..model };
    lemma_channels_step(context, model, context.min_chan as int);
    lemma_channels_step(context, past, context.min_chan as int);
    if context.guards.quantiser_step_size {
        lemma_steps_step(context, past, 0);
    }
}

/// The output shifts keep what the header says in step.
proof fn lemma_shifts_step(context: HeaderContext, model: HeaderModel, channel: int)
    requires
        context.guards.output_shift,
        model_fits(context, model),
        0 <= channel,
    ensures
        header_steps(context, model, read_shifts(context, model, channel).0),
    decreases context.max_matrix_chan + 1 - channel,
{
    if channel > context.max_matrix_chan {
        lemma_behind_shifts(context, model);
    } else if bits_left(context.data, model.position, 4) {
        let shift = signed_bits_value(context.data, model.position, 4) as i8;
        if shift <= context.max_shift {
            let next = HeaderModel {
                position: model.position + 4,
                output_shift: model.output_shift.update(channel, shift),
                new_output_shift: model.new_output_shift.update(channel, Some(shift)),
                ..model
            };
            lemma_shifts_step(context, next, channel + 1);
        }
    }
}

/// What follows the matrixing keeps what the header says in step.
proof fn lemma_behind_matrixing(context: HeaderContext, model: HeaderModel)
    requires
        model_fits(context, model),
    ensures
        header_steps(context, model, read_output_shift(context, model).0),
{
    let past = HeaderModel { position: model.position + 1, ..model };
    lemma_behind_shifts(context, model);
    lemma_behind_shifts(context, past);
    if context.guards.output_shift {
        lemma_shifts_step(context, past, 0);
    }
}

/// What follows the block size keeps what the header says in step.
proof fn lemma_behind_block_size(context: HeaderContext, model: HeaderModel)
    requires
        model_fits(context, model),
    ensures
        header_steps(context, model, read_matrixing(context, model).0),
{
    let past = HeaderModel { position: model.position + 1, ..model };
    lemma_behind_matrixing(context, model);
    lemma_behind_matrixing(context, past);
}

/// What follows the guards keeps what the header says in step.
proof fn lemma_behind_guards(context: HeaderContext, model: HeaderModel)
    requires
        model_fits(context, model),
    ensures
        header_steps(context, model, read_block_size(context, model).0),
{
    let past = HeaderModel { position: model.position + 1, ..model };
    lemma_behind_block_size(context, model);
    lemma_behind_block_size(context, past);
    let size = bits_value(context.data, model.position + 1, 9) as usize;
    let sized = HeaderModel {
        position: model.position + 10,
        block_size: size,
        new_block_size: Some(size),
        ..model
    };
    lemma_behind_block_size(context, sized);
}

/// A block header updates only parameters whose guard is set. What it updates
/// is what the parser goes by from then on, and is within its limit: a block of
/// 8 to 160 samples that fits its access unit, and no shift above the largest.
/// Reading never goes back.
pub proof fn headers_update_guarded_parameters_only(
    context: HeaderContext,
    model: HeaderModel,
    stage: HeaderStage,
)
    requires
        model_fits(context, model),
    ensures
        ({
            let after = read_header(context, model, stage).0;
            &&& model.position <= after.position
            &&& keeps_unguarded(context, model, after)
            &&& header_agrees(model) ==> header_agrees(after)
            &&& header_in_range(context, model) ==> header_in_range(context, after)
        }),
{
    let past = HeaderModel { position: model.position + 1, ..model };
    lemma_behind_guards(context, model);
    lemma_behind_guards(context, past);
    lemma_behind_matrixing(context, model);
    if let HeaderStage::Channel(channel) = stage {
        lemma_channels_step(context, model, channel as int);
    }
}

/// A protected block that is accepted takes exactly the bits that it declares,
/// and its checksum behind them.
pub proof fn declared_lengths_hold(
    substream: ParserSubstreamState,
    books: Seq<HuffmanBook>,
    data: Seq<u8>,
    position: int,
    declared: u16,
)
    requires
        substream.error_protect,
    ensures
        read_body(substream, books, data, position, Some(declared)) matches Ok(body) ==> body.end
            == position + declared + 8,
{
}

} // verus!
