//! Laws of block headers, of timing, and of the hand-over to the decoder.

use crate::truehd::bits::{
    bit_at, bits_value, bits_value_in_range, signed_bits_value, signed_bits_value_in_range,
    BitError, HuffmanBook,
};
use crate::truehd::block::{
    block_completed, flags_at, past_flag, read_body, read_channels, read_header, read_length,
    read_matrixing, read_output_shift, read_quantiser_step_size, read_shifts, read_steps, Block,
    BlockHeader, HeaderContext, HeaderModel, HeaderNeed, HeaderStage,
};
use crate::truehd::decoder::{
    block_handed_over, header_handed_over, merged, size_after, timing_after, with_rows,
    DecoderState, DecoderSubstreamState,
};
use crate::truehd::errors::BlockError;
use crate::truehd::laws::model_fits;
use crate::truehd::state::{ParserState, ParserSubstreamState};
use crate::truehd::timing::{
    latency_finding, next_advance, timing_fits, timing_recorded, timing_result,
};
use vstd::arithmetic::power2::lemma2_to64;
use vstd::prelude::*;

verus! {

/// The flags of the channels lie one behind the other from `position` on: the
/// first that is set from `channel` on asks for the parameters of its channel,
/// and where none is the header is complete.
pub proof fn channel_flags_lie_in_order(context: HeaderContext, model: HeaderModel, channel: int)
    requires
        0 <= channel,
        context.max_chan < 16,
    ensures
        ({
            let (after, result) = read_channels(context, model, channel);
            let last = context.max_chan;
            result matches Ok(need) ==> {
                let count = after.position - model.position;
                &&& after == (HeaderModel { position: after.position, ..model })
                &&& after.position <= 8 * context.data.len() || count == 0
                &&& match need {
                    HeaderNeed::ChannelParams(asked) => {
                        &&& channel <= asked <= last
                        &&& count == asked - channel + 1
                        &&& bit_at(context.data, after.position - 1) == 1
                        &&& forall|before: int|
                            model.position <= before < after.position - 1 ==> #[trigger] bit_at(
                                context.data,
                                before,
                            ) != 1
                    },
                    HeaderNeed::Nothing => {
                        &&& count == if channel <= last {
                            last - channel + 1
                        } else {
                            0
                        }
                        &&& forall|before: int|
                            model.position <= before < after.position ==> #[trigger] bit_at(
                                context.data,
                                before,
                            ) != 1
                    },
                    _ => false,
                }
            }
        }),
    decreases context.max_chan + 1 - channel,
{
    if channel <= context.max_chan && crate::truehd::bits::bits_left(
        context.data,
        model.position,
        1,
    ) && bit_at(context.data, model.position) != 1 {
        channel_flags_lie_in_order(context, past_flag(model), channel + 1);
    }
}

/// The step sizes from `channel` on take four bits each, and the flags of the
/// channels follow.
proof fn lemma_steps_at(context: HeaderContext, model: HeaderModel, channel: int)
    requires
        model_fits(context, model),
        0 <= channel <= context.max_chan + 1,
    ensures
        ({
            let (after, result) = read_steps(context, model, channel);
            result is Ok ==> {
                let behind = HeaderModel {
                    position: model.position + 4 * (context.max_chan + 1 - channel),
                    quantiser_step_size: after.quantiser_step_size,
                    new_quantiser_step_size: after.new_quantiser_step_size,
                    ..model
                };
                &&& read_channels(context, behind, context.min_chan as int) == (after, result)
                &&& after.quantiser_step_size.len() == 16
                &&& after.new_quantiser_step_size.len() == 16
                &&& forall|place: int|
                    #![trigger after.quantiser_step_size[place]]
                    #![trigger after.new_quantiser_step_size[place]]
                    0 <= place < 16 ==> if channel <= place <= context.max_chan {
                        &&& after.quantiser_step_size[place] == bits_value(
                            context.data,
                            model.position + 4 * (place - channel),
                            4,
                        )
                        &&& after.new_quantiser_step_size[place] == Some(
                            after.quantiser_step_size[place],
                        )
                    } else {
                        &&& after.quantiser_step_size[place] == model.quantiser_step_size[place]
                        &&& after.new_quantiser_step_size[place]
                            == model.new_quantiser_step_size[place]
                    }
            }
        }),
    decreases context.max_chan + 1 - channel,
{
    if channel > context.max_chan {
        channel_flags_lie_in_order(context, model, context.min_chan as int);
        let (after, result) = read_steps(context, model, channel);
        if result is Ok {
            assert(after.quantiser_step_size == model.quantiser_step_size);
            assert(HeaderModel {
                position: model.position + 4 * (context.max_chan + 1 - channel),
                quantiser_step_size: after.quantiser_step_size,
                new_quantiser_step_size: after.new_quantiser_step_size,
                ..model
            } == model);
        }
    } else if crate::truehd::bits::bits_left(context.data, model.position, 4) {
        let step = bits_value(context.data, model.position, 4) as u32;
        bits_value_in_range(context.data, model.position, 4);
        lemma2_to64();
        let next = HeaderModel {
            position: model.position + 4,
            quantiser_step_size: model.quantiser_step_size.update(channel, step),
            new_quantiser_step_size: model.new_quantiser_step_size.update(channel, Some(step)),
            ..model
        };
        lemma_steps_at(context, next, channel + 1);
        assert forall|place: int| channel < place <= context.max_chan implies next.position + 4 * (
        place - (channel + 1)) == #[trigger] (model.position + 4 * (place - channel)) by {}
        let (after, result) = read_steps(context, model, channel);
        if result is Ok {
            assert(HeaderModel {
                position: next.position + 4 * (context.max_chan + 1 - (channel + 1)),
                quantiser_step_size: after.quantiser_step_size,
                new_quantiser_step_size: after.new_quantiser_step_size,
                ..next
            } == HeaderModel {
                position: model.position + 4 * (context.max_chan + 1 - channel),
                quantiser_step_size: after.quantiser_step_size,
                new_quantiser_step_size: after.new_quantiser_step_size,
                ..model
            });
            assert(after.quantiser_step_size[channel] == next.quantiser_step_size[channel]);
            assert(after.new_quantiser_step_size[channel]
                == next.new_quantiser_step_size[channel]);
        }
    }
}

/// The quantiser step sizes lie at their places: a flag where the guard allows
/// them, and behind a flag that is set four bits for each channel from the first
/// to the last of the substream. The flags of the channels follow.
pub proof fn steps_lie_at_their_places(context: HeaderContext, model: HeaderModel)
    requires
        model_fits(context, model),
    ensures
        ({
            let (after, result) = read_quantiser_step_size(context, model);
            let set = context.guards.quantiser_step_size && bit_at(context.data, model.position)
                == 1;
            let bits = if !context.guards.quantiser_step_size {
                0
            } else if set {
                1 + 4 * (context.max_chan + 1)
            } else {
                1
            };
            result is Ok ==> {
                &&& read_channels(
                    context,
                    (HeaderModel {
                        position: model.position + bits,
                        quantiser_step_size: after.quantiser_step_size,
                        new_quantiser_step_size: after.new_quantiser_step_size,
                        ..model
                    }),
                    context.min_chan as int,
                ) == (after, result)
                &&& forall|place: int|
                    #![trigger after.quantiser_step_size[place]]
                    #![trigger after.new_quantiser_step_size[place]]
                    0 <= place < 16 ==> if set && place <= context.max_chan {
                        &&& after.quantiser_step_size[place] == bits_value(
                            context.data,
                            model.position + 1 + 4 * place,
                            4,
                        )
                        &&& after.new_quantiser_step_size[place] == Some(
                            after.quantiser_step_size[place],
                        )
                    } else {
                        &&& after.quantiser_step_size[place] == model.quantiser_step_size[place]
                        &&& after.new_quantiser_step_size[place]
                            == model.new_quantiser_step_size[place]
                    }
            }
        }),
{
    lemma_steps_at(context, past_flag(model), 0);
    channel_flags_lie_in_order(context, model, context.min_chan as int);
    channel_flags_lie_in_order(context, past_flag(model), context.min_chan as int);
    let (after, result) = read_quantiser_step_size(context, model);
    if result is Ok && !context.guards.quantiser_step_size {
        assert(HeaderModel {
            position: model.position + 0,
            quantiser_step_size: after.quantiser_step_size,
            new_quantiser_step_size: after.new_quantiser_step_size,
            ..model
        } == model);
    }
}

/// The output shifts from `channel` on take four bits each, as signed numbers up
/// to the largest one, and the step sizes follow.
proof fn lemma_shifts_at(context: HeaderContext, model: HeaderModel, channel: int)
    requires
        model_fits(context, model),
        0 <= channel <= context.max_matrix_chan + 1,
    ensures
        ({
            let (after, result) = read_shifts(context, model, channel);
            result is Ok ==> {
                let behind = HeaderModel {
                    position: model.position + 4 * (context.max_matrix_chan + 1 - channel),
                    output_shift: after.output_shift,
                    new_output_shift: after.new_output_shift,
                    ..model
                };
                &&& read_quantiser_step_size(context, behind) == (after, result)
                &&& after.output_shift.len() == 16
                &&& after.new_output_shift.len() == 16
                &&& forall|place: int|
                    #![trigger after.output_shift[place]]
                    #![trigger after.new_output_shift[place]]
                    0 <= place < 16 ==> if channel <= place <= context.max_matrix_chan {
                        &&& after.output_shift[place] == signed_bits_value(
                            context.data,
                            model.position + 4 * (place - channel),
                            4,
                        )
                        &&& after.output_shift[place] <= context.max_shift
                        &&& after.new_output_shift[place] == Some(after.output_shift[place])
                    } else {
                        &&& after.output_shift[place] == model.output_shift[place]
                        &&& after.new_output_shift[place] == model.new_output_shift[place]
                    }
            }
        }),
    decreases context.max_matrix_chan + 1 - channel,
{
    let (after, result) = read_shifts(context, model, channel);
    if channel > context.max_matrix_chan {
        crate::truehd::header::lemma_quantiser_step_size(context, model);
        if result is Ok {
            assert(HeaderModel {
                position: model.position + 4 * (context.max_matrix_chan + 1 - channel),
                output_shift: after.output_shift,
                new_output_shift: after.new_output_shift,
                ..model
            } == model);
        }
    } else if crate::truehd::bits::bits_left(context.data, model.position, 4) {
        let shift = signed_bits_value(context.data, model.position, 4) as i8;
        signed_bits_value_in_range(context.data, model.position, 4);
        lemma2_to64();
        if shift <= context.max_shift {
            let next = HeaderModel {
                position: model.position + 4,
                output_shift: model.output_shift.update(channel, shift),
                new_output_shift: model.new_output_shift.update(channel, Some(shift)),
                ..model
            };
            lemma_shifts_at(context, next, channel + 1);
            assert forall|place: int| channel < place <= context.max_matrix_chan implies
                next.position + 4 * (place - (channel + 1)) == #[trigger] (model.position + 4 * (
            place - channel)) by {}
            if result is Ok {
                assert(HeaderModel {
                    position: next.position + 4 * (context.max_matrix_chan + 1 - (channel + 1)),
                    output_shift: after.output_shift,
                    new_output_shift: after.new_output_shift,
                    ..next
                } == HeaderModel {
                    position: model.position + 4 * (context.max_matrix_chan + 1 - channel),
                    output_shift: after.output_shift,
                    new_output_shift: after.new_output_shift,
                    ..model
                });
                assert(after.output_shift[channel] == next.output_shift[channel]);
                assert(after.new_output_shift[channel] == next.new_output_shift[channel]);
            }
        }
    }
}

/// The output shifts lie at their places: a flag where the guard allows them,
/// and behind a flag that is set four bits for each channel up to the last of the
/// matrix, as signed numbers. The step sizes follow.
pub proof fn shifts_lie_at_their_places(context: HeaderContext, model: HeaderModel)
    requires
        model_fits(context, model),
    ensures
        ({
            let (after, result) = read_output_shift(context, model);
            let set = context.guards.output_shift && bit_at(context.data, model.position) == 1;
            let bits = if !context.guards.output_shift {
                0
            } else if set {
                1 + 4 * (context.max_matrix_chan + 1)
            } else {
                1
            };
            result is Ok ==> {
                &&& read_quantiser_step_size(
                    context,
                    (HeaderModel {
                        position: model.position + bits,
                        output_shift: after.output_shift,
                        new_output_shift: after.new_output_shift,
                        ..model
                    }),
                ) == (after, result)
                &&& forall|place: int|
                    #![trigger after.output_shift[place]]
                    #![trigger after.new_output_shift[place]]
                    0 <= place < 16 ==> if set && place <= context.max_matrix_chan {
                        &&& after.output_shift[place] == signed_bits_value(
                            context.data,
                            model.position + 1 + 4 * place,
                            4,
                        )
                        &&& after.output_shift[place] <= context.max_shift
                        &&& after.new_output_shift[place] == Some(after.output_shift[place])
                    } else {
                        &&& after.output_shift[place] == model.output_shift[place]
                        &&& after.new_output_shift[place] == model.new_output_shift[place]
                    }
            }
        }),
{
    lemma_shifts_at(context, past_flag(model), 0);
    crate::truehd::header::lemma_quantiser_step_size(context, model);
    crate::truehd::header::lemma_quantiser_step_size(context, past_flag(model));
    let (after, result) = read_output_shift(context, model);
    if result is Ok && !context.guards.output_shift {
        assert(HeaderModel {
            position: model.position + 0,
            output_shift: after.output_shift,
            new_output_shift: after.new_output_shift,
            ..model
        } == model);
    }
}

/// A header begins with the guards, then the block size and then the matrixing,
/// each behind a flag of its own where the present guards allow it. The block
/// size takes nine bits, and the output shifts follow the matrixing.
pub proof fn headers_begin_with_guards_size_and_matrixing(
    context: HeaderContext,
    model: HeaderModel,
    stage: HeaderStage,
)
    requires
        stage == HeaderStage::Guards || stage == HeaderStage::BlockSize,
    ensures
        ({
            let (after, result) = read_header(context, model, stage);
            let data = context.data;
            let guards = stage == HeaderStage::Guards && context.guards.guards;
            let from = if guards {
                model.position + 1
            } else {
                model.position
            };
            let sized = context.guards.block_size && bit_at(data, from) == 1;
            let size = bits_value(data, from + 1, 9);
            let behind = if !context.guards.block_size {
                from
            } else if sized {
                from + 10
            } else {
                from + 1
            };
            let settled = if sized {
                HeaderModel {
                    position: behind,
                    block_size: size as usize,
                    new_block_size: Some(size as usize),
                    ..model
                }
            } else {
                HeaderModel { position: behind, ..model }
            };
            result matches Ok(need) ==> if guards && bit_at(data, model.position) == 1 {
                &&& need == HeaderNeed::Guards
                &&& after == (HeaderModel { position: model.position + 1, ..model })
            } else {
                &&& need != HeaderNeed::Guards
                &&& sized ==> 8 <= size <= 160 && size <= context.samples_per_au
                &&& if context.guards.matrixing && bit_at(data, behind) == 1 {
                    &&& need == HeaderNeed::Matrixing
                    &&& after == (HeaderModel { position: behind + 1, ..settled })
                } else if context.guards.matrixing {
                    read_output_shift(
                        context,
                        (HeaderModel { position: behind + 1, ..settled }),
                    ) == (after, result)
                } else {
                    read_output_shift(context, settled) == (after, result)
                }
            }
        }),
{
    let from = if stage == HeaderStage::Guards && context.guards.guards {
        past_flag(model)
    } else {
        model
    };
    bits_value_in_range(context.data, from.position + 1, 9);
    lemma2_to64();
    lemma_no_guards_behind(context, model);
    lemma_no_guards_behind(context, past_flag(model));
    lemma_no_guards_behind(context, past_flag(past_flag(model)));
    let size = bits_value(context.data, from.position + 1, 9) as usize;
    let sized = HeaderModel {
        position: from.position + 10,
        block_size: size,
        new_block_size: Some(size),
        ..from
    };
    lemma_no_guards_behind(context, sized);
    assert(from == HeaderModel { position: from.position, ..model });
    assert(sized == HeaderModel {
        position: from.position + 10,
        block_size: size,
        new_block_size: Some(size),
        ..model
    });
}

/// Guards are asked for at the start of a header only.
proof fn lemma_no_guards_behind(context: HeaderContext, model: HeaderModel)
    ensures
        read_matrixing(context, model).1 != Ok::<HeaderNeed, BlockError>(HeaderNeed::Guards),
{
    lemma_no_guards_at_shifts(context, model);
    lemma_no_guards_at_shifts(context, past_flag(model));
}

proof fn lemma_no_guards_at_shifts(context: HeaderContext, model: HeaderModel)
    ensures
        read_output_shift(context, model).1 != Ok::<HeaderNeed, BlockError>(HeaderNeed::Guards),
{
    lemma_no_guards_at_steps(context, model);
    lemma_no_guards_at_steps(context, past_flag(model));
    lemma_no_guards_in_shifts(context, past_flag(model), 0);
}

proof fn lemma_no_guards_in_shifts(context: HeaderContext, model: HeaderModel, channel: int)
    ensures
        read_shifts(context, model, channel).1 != Ok::<HeaderNeed, BlockError>(HeaderNeed::Guards),
    decreases context.max_matrix_chan + 1 - channel,
{
    if channel > context.max_matrix_chan {
        lemma_no_guards_at_steps(context, model);
    } else {
        let shift = signed_bits_value(context.data, model.position, 4) as i8;
        lemma_no_guards_in_shifts(
            context,
            HeaderModel {
                position: model.position + 4,
                output_shift: model.output_shift.update(channel, shift),
                new_output_shift: model.new_output_shift.update(channel, Some(shift)),
                ..model
            },
            channel + 1,
        );
    }
}

proof fn lemma_no_guards_at_steps(context: HeaderContext, model: HeaderModel)
    ensures
        read_quantiser_step_size(context, model).1 != Ok::<HeaderNeed, BlockError>(
            HeaderNeed::Guards,
        ),
{
    lemma_no_guards_in_channels(context, model, context.min_chan as int);
    lemma_no_guards_in_channels(context, past_flag(model), context.min_chan as int);
    lemma_no_guards_in_steps(context, past_flag(model), 0);
}

proof fn lemma_no_guards_in_steps(context: HeaderContext, model: HeaderModel, channel: int)
    ensures
        read_steps(context, model, channel).1 != Ok::<HeaderNeed, BlockError>(HeaderNeed::Guards),
    decreases context.max_chan + 1 - channel,
{
    if channel > context.max_chan {
        lemma_no_guards_in_channels(context, model, context.min_chan as int);
    } else {
        let step = bits_value(context.data, model.position, 4) as u32;
        lemma_no_guards_in_steps(
            context,
            HeaderModel {
                position: model.position + 4,
                quantiser_step_size: model.quantiser_step_size.update(channel, step),
                new_quantiser_step_size: model.new_quantiser_step_size.update(channel, Some(step)),
                ..model
            },
            channel + 1,
        );
    }
}

proof fn lemma_no_guards_in_channels(context: HeaderContext, model: HeaderModel, channel: int)
    ensures
        read_channels(context, model, channel).1 != Ok::<HeaderNeed, BlockError>(
            HeaderNeed::Guards,
        ),
    decreases context.max_chan + 1 - channel,
{
    if channel <= context.max_chan {
        lemma_no_guards_in_channels(context, past_flag(model), channel + 1);
    }
}

/// A block size is refused exactly outside 8 to 160 samples or above the samples
/// of an access unit; any other one is taken and reading goes on with it.
pub proof fn block_sizes_are_checked(context: HeaderContext, model: HeaderModel)
    requires
        context.guards.block_size,
        model.position + 10 <= 8 * context.data.len(),
        bit_at(context.data, model.position) == 1,
    ensures
        ({
            let size = bits_value(context.data, model.position + 1, 9);
            let read = read_header(context, model, HeaderStage::BlockSize);
            if size < 8 || size > 160 {
                read.1 == Err::<HeaderNeed, BlockError>(
                    BlockError::InvalidBlockSizeRange(size as usize),
                )
            } else if size > context.samples_per_au {
                read.1 == Err::<HeaderNeed, BlockError>(
                    BlockError::BlockSizeExceedsAU {
                        max: context.samples_per_au,
                        actual: size as usize,
                    },
                )
            } else {
                read == read_matrixing(
                    context,
                    (HeaderModel {
                        position: model.position + 10,
                        block_size: size as usize,
                        new_block_size: Some(size as usize),
                        ..model
                    }),
                )
            }
        }),
{
    bits_value_in_range(context.data, model.position + 1, 9);
    lemma2_to64();
}

/// An output shift is refused exactly where it is above the largest one, and the
/// refusal names its channel and its value.
pub proof fn output_shifts_are_checked(context: HeaderContext, model: HeaderModel, channel: int)
    requires
        0 <= channel <= context.max_matrix_chan < 16,
        model.position + 4 <= 8 * context.data.len(),
    ensures
        ({
            let shift = signed_bits_value(context.data, model.position, 4);
            let read = read_shifts(context, model, channel);
            if shift > context.max_shift {
                read.1 == Err::<HeaderNeed, BlockError>(
                    BlockError::OutputShiftTooLarge {
                        index: channel as usize,
                        value: shift as i8,
                        max: context.max_shift,
                        substream: context.substream_index,
                    },
                )
            } else {
                read == read_shifts(
                    context,
                    (HeaderModel {
                        position: model.position + 4,
                        output_shift: model.output_shift.update(channel, shift as i8),
                        new_output_shift: model.new_output_shift.update(channel, Some(shift as i8)),
                        ..model
                    }),
                    channel + 1,
                )
            }
        }),
{
    signed_bits_value_in_range(context.data, model.position, 4);
    lemma2_to64();
}

/// The latency lies in 16 bits and is the same, in 16-bit arithmetic, as the
/// samples since the last major sync plus the output timing less the input
/// timing. What was the latency becomes the previous one.
pub proof fn latency_is_output_less_input(before: ParserState, after: ParserSubstreamState)
    requires
        timing_recorded(&before, after),
    ensures
        0 <= after.latency < 65536,
        (after.latency + before.input_timing - before.output_timing - (before.au_counter
            - before.last_major_sync_index) * before.samples_per_au) % 65536 == 0,
        after.prev_latency == before.substream().latency,
{
    let sum = (before.au_counter - before.last_major_sync_index) * before.samples_per_au
        + before.output_timing - before.input_timing;
    assert((sum % 65536 - sum) % 65536 == 0);
}

/// From one access unit to the next, with the same timing fields, the latency
/// grows by the samples of an access unit, in 16-bit arithmetic.
pub proof fn latency_grows_with_the_access_units(
    before: ParserState,
    later: ParserState,
    first: ParserSubstreamState,
    second: ParserSubstreamState,
)
    requires
        timing_recorded(&before, first),
        timing_recorded(&later, second),
        later.au_counter == before.au_counter + 1,
        later.last_major_sync_index == before.last_major_sync_index,
        later.samples_per_au == before.samples_per_au,
        later.output_timing == before.output_timing,
        later.input_timing == before.input_timing,
    ensures
        (second.latency - first.latency - before.samples_per_au) % 65536 == 0,
{
    latency_is_output_less_input(before, first);
    latency_is_output_less_input(later, second);
    let units = before.au_counter - before.last_major_sync_index;
    let samples = before.samples_per_au as int;
    assert((units + 1) * samples == units * samples + samples) by (nonlinear_arith);
}

/// The size of a substream is recorded in bytes: twice the 16-bit words from the
/// end of the substream before it to its own end. The first starts at zero.
pub proof fn sizes_are_recorded_in_bytes(before: ParserState, after: ParserSubstreamState)
    requires
        before.has_substream(),
        timing_recorded(&before, after),
        timing_result(&before) is Ok,
        before.substream().history_index < 128,
    ensures
        ({
            let index = before.substream().history_index as int;
            let start = if before.substream_index == 0 {
                0
            } else {
                before.substream_state@[before.substream_index - 1].substream_end_ptr as int
            };
            &&& start <= before.substream().substream_end_ptr
            &&& after.substream_size_history@[index] == 2 * (before.substream().substream_end_ptr
                - start)
            &&& after.history_index == if index == 127 {
                0
            } else {
                index + 1
            }
            &&& forall|other: int|
                0 <= other < 128 && other != index
                    ==> #[trigger] after.substream_size_history@[other]
                    == before.substream().substream_size_history@[other]
        }),
{
}

/// A substream that ends before it starts is refused, whatever its latency is
/// allowed to be.
pub proof fn backward_substreams_are_refused(state: ParserState)
    requires
        state.has_substream(),
        state.substream_index > 0,
        state.substream().substream_end_ptr < state.substream_state@[state.substream_index
            - 1].substream_end_ptr,
    ensures
        timing_result(&state) is Err,
{
}

/// The advance is the latency less the samples of an access unit, and is kept at
/// a major sync.
pub proof fn advance_follows_the_latency(before: ParserState, after: ParserSubstreamState)
    requires
        timing_recorded(&before, after),
        timing_fits(&before),
    ensures
        before.is_major_sync ==> next_advance(&before) == before.advance,
        !before.is_major_sync && after.latency >= before.samples_per_au ==> next_advance(&before)
            == after.latency - before.samples_per_au,
{
}

/// The latency that holds is the one of this access unit where it may change: no
/// flag is set, or nothing was parsed before. Otherwise it is the one before, and
/// must be the same.
pub open spec fn holding_latency(state: ParserState, latency: int) -> int {
    if state.flags & 0x8000 == 0 || !state.has_parsed_au {
        latency
    } else {
        state.substream().latency as int
    }
}

/// No latency rule is broken exactly where the latency did not change without
/// leave, is at least the FIFO's duration and an access unit, and is at most 75
/// milliseconds.
pub proof fn latency_rules_are_those_of_the_format(
    before: ParserState,
    after: ParserSubstreamState,
)
    requires
        timing_recorded(&before, after),
        timing_fits(&before),
        before.substream().latency < 65536,
    ensures
        ({
            let held = holding_latency(before, after.latency as int);
            latency_finding(&before) is None <==> {
                &&& before.flags & 0x8000 != 0 && before.has_parsed_au ==> before.substream().latency
                    == after.latency
                &&& before.fifo_duration <= held
                &&& 40 * (held - 1) < 3 * before.audio_sampling_frequency_1
                &&& before.samples_per_au <= held
            }
        }),
{
    let held = holding_latency(before, after.latency as int);
    let tripled = before.audio_sampling_frequency_1 * 3;
    assert((held as usize) as u32 == held);
    assert(held <= (tripled + 39) / 40 <==> 40 * (held - 1) < tripled);
}

/// A parser stops on a broken latency rule exactly where warnings stop it.
pub proof fn broken_rules_stop_strict_parsers(state: ParserState)
    requires
        latency_finding(&state) is Some,
    ensures
        crate::level::stops(state.fail_level, crate::level::Level::Warn) ==> timing_result(&state)
            == Err::<(), BlockError>(latency_finding(&state)->0),
        !crate::level::stops(state.fail_level, crate::level::Level::Warn) ==> (timing_result(
            &state,
        ) is Ok <==> state.substream().substream_end_ptr >= if state.substream_index == 0 {
            0u16
        } else {
            state.substream_state@[state.substream_index - 1].substream_end_ptr
        }),
{
}

/// The output timing of the decoder goes on by an access unit, in 16-bit
/// arithmetic, with the first block of one that does not restart, and stands
/// still otherwise.
pub proof fn decoder_timing_goes_on_once_per_access_unit(
    before: DecoderSubstreamState,
    samples_per_au: usize,
    restarts: bool,
)
    ensures
        ({
            let after = timing_after(before, samples_per_au, restarts);
            &&& restarts || before.decoded_sample_len > 0 ==> after == before.output_timing
            &&& !restarts && before.decoded_sample_len == 0 ==> (after - before.output_timing
                - samples_per_au) % 65536 == 0
        }),
{
}

/// What a header sets replaces what the decoder had, place by place; what it
/// does not set stays.
pub proof fn updates_replace_place_by_place<T>(old_values: Seq<T>, new: Seq<Option<T>>, place: int)
    requires
        0 <= place < old_values.len(),
        new.len() == old_values.len(),
    ensures
        merged(old_values, new).len() == old_values.len(),
        new[place] is Some ==> Some(merged(old_values, new)[place]) == new[place],
        new[place] is None ==> merged(old_values, new)[place] == old_values[place],
{
}

/// A block hands over exactly the rows of its own size: those of its header
/// where it sets one, else those of the size before.
pub proof fn blocks_hand_over_the_rows_of_their_size<M, P>(
    before: usize,
    header: Option<BlockHeader<M, P>>,
    old_rows: Seq<[i32; 16]>,
    new_rows: Seq<[i32; 16]>,
    row: int,
)
    requires
        old_rows.len() == 160,
        new_rows.len() == 160,
        0 <= row < 160,
    ensures
        ({
            let size = size_after(before, header);
            let rows = with_rows(old_rows, new_rows, size as int);
            &&& header is None ==> size == before
            &&& header matches Some(found) ==> (found.block_size matches Some(set) ==> size == set)
            &&& header matches Some(found) ==> (found.block_size is None ==> size == before)
            &&& rows.len() == 160
            &&& row < size ==> rows[row] == new_rows[row]
            &&& row >= size ==> rows[row] == old_rows[row]
        }),
{
}

/// The finding names the rule that is broken: a change without leave before a
/// FIFO that lasts longer than the latency, that before a latency above 75
/// milliseconds, and that before one below an access unit.
pub proof fn findings_name_the_broken_rule(before: ParserState, after: ParserSubstreamState)
    requires
        timing_recorded(&before, after),
        timing_fits(&before),
        before.substream().latency < 65536,
    ensures
        ({
            let held = holding_latency(before, after.latency as int);
            let changed = before.flags & 0x8000 != 0 && before.has_parsed_au
                && before.substream().latency != after.latency;
            match latency_finding(&before) {
                None => !changed && before.fifo_duration <= held,
                Some(BlockError::LatencyInconsistent { substream }) => changed && substream
                    == before.substream_index,
                Some(BlockError::DurationExceedsLatency { duration, latency }) => {
                    &&& !changed
                    &&& duration == before.fifo_duration
                    &&& latency == after.latency
                    &&& duration > held
                },
                Some(BlockError::LatencyTooHigh { latency, samples }) => {
                    &&& !changed
                    &&& before.fifo_duration <= held
                    &&& latency == held
                    &&& held > samples
                    &&& 40 * (samples - 1) < 3 * before.audio_sampling_frequency_1 <= 40 * samples
                },
                Some(BlockError::LatencyTooLow { latency, au }) => {
                    &&& !changed
                    &&& before.fifo_duration <= held
                    &&& 40 * (held - 1) < 3 * before.audio_sampling_frequency_1
                    &&& latency == held
                    &&& au == before.samples_per_au
                    &&& held < au
                },
                _ => false,
            }
        }),
{
    let held = holding_latency(before, after.latency as int);
    let tripled = before.audio_sampling_frequency_1 * 3;
    assert((held as usize) as u32 == held);
    assert(held <= (tripled + 39) / 40 <==> 40 * (held - 1) < tripled);
    let samples = (tripled + 39) / 40;
    assert(40 * (samples - 1) < tripled <= 40 * samples);
}

/// Timing is taken from the first block of the first substream alone: any other
/// block leaves the parser as it was.
pub proof fn only_the_first_block_carries_timing<R, M, P>(
    before: ParserState,
    after: ParserState,
    data: Seq<u8>,
    position: int,
    end: int,
    books: Seq<HuffmanBook>,
    restart_header: Option<R>,
    block_header: Option<BlockHeader<M, P>>,
    result: Result<Block<R, M, P>, BlockError>,
)
    requires
        block_completed(
            before,
            after,
            data,
            position,
            end,
            books,
            restart_header,
            block_header,
            result,
        ),
    ensures
        before.has_parsed_substream || before.substream().block_index > 0 ==> after == before,
        before.has_substream() && !before.has_parsed_substream && before.substream().block_index
            == 0 && result is Ok ==> timing_recorded(&before, after.substream()),
        result matches Ok(block) ==> {
            &&& block.restart_header == restart_header
            &&& block.block_header == block_header
            &&& block.block_data_bits is Some <==> before.substream().error_protect
            &&& end >= position
        },
{
    if before.has_substream() {
        if let Ok((declared, from)) = read_length(before.substream(), data, position) {
            if read_body(after.substream(), books, data, from, declared) is Ok {
                crate::truehd::samples::rows_read_forward(
                    after.substream(),
                    books,
                    data,
                    from,
                    0,
                    crate::truehd::block::zero_rows(),
                    crate::truehd::block::zero_rows(),
                );
            }
        }
    }
}

/// A block says by its first bit whether it has a block header, and by a second
/// one, which only such a block has, whether a restart header comes first.
pub proof fn flags_say_which_headers_follow(data: Seq<u8>, position: int)
    ensures
        match flags_at(data, position) {
            Some(flags) => {
                &&& position < 8 * data.len()
                &&& flags.block_header <==> bit_at(data, position) == 1
                &&& flags.restart_header <==> bit_at(data, position) == 1 && bit_at(
                    data,
                    position + 1,
                ) == 1
                &&& flags.block_header ==> position + 1 < 8 * data.len()
            },
            None => position >= 8 * data.len() || bit_at(data, position) == 1 && position + 1
                >= 8 * data.len(),
        },
{
}

/// A block that is taken over changes the substream being decoded alone. Its
/// header sets what it sets, its own rows replace those before up to the block
/// size, and the output timing goes on with the first block of an access unit
/// that does not restart the decoder. Without a substream nothing is changed.
pub proof fn blocks_are_taken_over_whole<R, M, P>(
    block: Block<R, M, P>,
    before: DecoderState,
    after: DecoderState,
    result: Result<(), BlockError>,
    row: int,
    channel: int,
)
    requires
        block_handed_over(block, before, after, result),
        0 <= row < 160,
        0 <= channel < 16,
    ensures
        result is Ok <==> before.substream_index < before.substream_state@.len(),
        result is Err ==> after.substream_state@ =~= before.substream_state@,
        after.substream_state@.len() == before.substream_state@.len(),
        forall|other: int|
            0 <= other < before.substream_state@.len() && other != before.substream_index
                ==> #[trigger] after.substream_state@[other] == before.substream_state@[other],
        result is Ok ==> {
            let earlier = before.substream_state@[before.substream_index as int];
            let later = after.substream_state@[before.substream_index as int];
            let set = block.block_header matches Some(header) && header.block_size is Some;
            let first = block.restart_header is None && earlier.decoded_sample_len == 0;
            &&& later.block_size == if set {
                block.block_header->0.block_size->0
            } else {
                earlier.block_size
            }
            &&& later.block_data@[row] == if row < later.block_size {
                block.block_data@[row]
            } else {
                earlier.block_data@[row]
            }
            &&& later.bypassed_lsb@[row] == if row < later.block_size {
                block.bypassed_lsb@[row]
            } else {
                earlier.bypassed_lsb@[row]
            }
            &&& later.output_shift@[channel] == match block.block_header {
                Some(header) => match header.output_shift@[channel] {
                    Some(shift) => shift,
                    None => earlier.output_shift@[channel],
                },
                None => earlier.output_shift@[channel],
            }
            &&& later.quantiser_step_size@[channel] == match block.block_header {
                Some(header) => match header.quantiser_step_size@[channel] {
                    Some(step) => step,
                    None => earlier.quantiser_step_size@[channel],
                },
                None => earlier.quantiser_step_size@[channel],
            }
            &&& !first ==> later.output_timing == earlier.output_timing
            &&& first ==> (later.output_timing - earlier.output_timing - before.samples_per_au)
                % 65536 == 0
            &&& later.decoded_sample_len == earlier.decoded_sample_len
        },
{
}

/// A header that is taken over by itself sets what it sets and nothing else.
pub proof fn headers_are_taken_over_whole<M, P>(
    header: BlockHeader<M, P>,
    before: DecoderState,
    after: DecoderState,
    result: Result<(), BlockError>,
    channel: int,
)
    requires
        header_handed_over(header, before, after, result),
        0 <= channel < 16,
    ensures
        result is Ok <==> before.substream_index < before.substream_state@.len(),
        result is Ok ==> {
            let earlier = before.substream_state@[before.substream_index as int];
            let later = after.substream_state@[before.substream_index as int];
            &&& header.block_size matches Some(size) ==> later.block_size == size
            &&& header.block_size is None ==> later.block_size == earlier.block_size
            &&& header.output_shift@[channel] matches Some(shift)
                ==> later.output_shift@[channel] == shift
            &&& header.output_shift@[channel] is None ==> later.output_shift@[channel]
                == earlier.output_shift@[channel]
            &&& header.quantiser_step_size@[channel] matches Some(step)
                ==> later.quantiser_step_size@[channel] == step
            &&& header.quantiser_step_size@[channel] is None
                ==> later.quantiser_step_size@[channel] == earlier.quantiser_step_size@[channel]
            &&& later.output_timing == earlier.output_timing
            &&& later.block_data == earlier.block_data
            &&& later.bypassed_lsb == earlier.bypassed_lsb
        },
{
}

/// The advance is the latency less the samples of an access unit, in the
/// arithmetic of the machine's words.
pub proof fn advance_wraps_around(before: ParserState, after: ParserSubstreamState)
    requires
        timing_recorded(&before, after),
        timing_fits(&before),
        !before.is_major_sync,
    ensures
        next_advance(&before) == if after.latency >= before.samples_per_au {
            after.latency - before.samples_per_au
        } else {
            after.latency - before.samples_per_au + usize::MAX + 1
        },
{
}

/// A broken latency rule that stops the parser leaves the histories as they were.
/// A substream of a wrong size leaves those of its size and its place. The rest of
/// the substream is never touched.
pub proof fn histories_grow_with_accepted_units(before: ParserState, after: ParserSubstreamState)
    requires
        timing_recorded(&before, after),
        before.substream().history_index < 128,
    ensures
        timing_result(&before) is Err ==> {
            &&& after.substream_size_history@ == before.substream().substream_size_history@
            &&& after.history_index == before.substream().history_index
        },
        timing_result(&before) is Ok ==> after.history_index == (before.substream().history_index
            + 1) % 128,
        crate::level::stops(before.fail_level, crate::level::Level::Warn) && latency_finding(
            &before,
        ) is Some ==> after.output_timing_history@ == before.substream().output_timing_history@,
        !before.has_parsed_au && timing_result(&before) is Ok ==> after.output_timing_history@[
            before.substream().history_index as int] == before.output_timing as usize,
        after.block_size == before.substream().block_size,
        after.guards == before.substream().guards,
        after.output_shift == before.substream().output_shift,
{
}

/// Whether a refusal of a header has its cause: the data ends where a field is
/// due, a block size is out of range or above the access unit, or a shift is above
/// the largest.
pub open spec fn refused_for_cause(
    context: HeaderContext,
    after: HeaderModel,
    error: BlockError,
) -> bool {
    match error {
        BlockError::Bits(reason) => reason == BitError::EndOfData && after.position + 9 > 8
            * context.data.len(),
        BlockError::InvalidBlockSizeRange(size) => size < 8 || size > 160,
        BlockError::BlockSizeExceedsAU { max, actual } => actual > max && max
            == context.samples_per_au,
        BlockError::OutputShiftTooLarge { index, value, max, substream } => {
            &&& value > max
            &&& max == context.max_shift
            &&& index <= context.max_matrix_chan
            &&& substream == context.substream_index
        },
        _ => false,
    }
}

proof fn lemma_cause_channels(context: HeaderContext, model: HeaderModel, channel: int)
    ensures
        ({
            let (after, result) = read_channels(context, model, channel);
            result matches Err(error) ==> refused_for_cause(context, after, error)
        }),
    decreases context.max_chan + 1 - channel,
{
    if channel <= context.max_chan {
        lemma_cause_channels(context, past_flag(model), channel + 1);
    }
}

proof fn lemma_cause_steps(context: HeaderContext, model: HeaderModel, channel: int)
    ensures
        ({
            let (after, result) = read_steps(context, model, channel);
            result matches Err(error) ==> refused_for_cause(context, after, error)
        }),
    decreases context.max_chan + 1 - channel,
{
    if channel > context.max_chan {
        lemma_cause_channels(context, model, context.min_chan as int);
    } else {
        let step = bits_value(context.data, model.position, 4) as u32;
        lemma_cause_steps(
            context,
            HeaderModel {
                position: model.position + 4,
                quantiser_step_size: model.quantiser_step_size.update(channel, step),
                new_quantiser_step_size: model.new_quantiser_step_size.update(channel, Some(step)),
                ..model
            },
            channel + 1,
        );
    }
}

proof fn lemma_cause_behind_shifts(context: HeaderContext, model: HeaderModel)
    ensures
        ({
            let (after, result) = read_quantiser_step_size(context, model);
            result matches Err(error) ==> refused_for_cause(context, after, error)
        }),
{
    lemma_cause_channels(context, model, context.min_chan as int);
    lemma_cause_channels(context, past_flag(model), context.min_chan as int);
    lemma_cause_steps(context, past_flag(model), 0);
}

proof fn lemma_cause_shifts(context: HeaderContext, model: HeaderModel, channel: int)
    requires
        0 <= channel,
        context.max_matrix_chan < 16,
    ensures
        ({
            let (after, result) = read_shifts(context, model, channel);
            result matches Err(error) ==> refused_for_cause(context, after, error)
        }),
    decreases context.max_matrix_chan + 1 - channel,
{
    if channel > context.max_matrix_chan {
        lemma_cause_behind_shifts(context, model);
    } else {
        let shift = signed_bits_value(context.data, model.position, 4) as i8;
        lemma_cause_shifts(
            context,
            HeaderModel {
                position: model.position + 4,
                output_shift: model.output_shift.update(channel, shift),
                new_output_shift: model.new_output_shift.update(channel, Some(shift)),
                ..model
            },
            channel + 1,
        );
    }
}

proof fn lemma_cause_behind_matrixing(context: HeaderContext, model: HeaderModel)
    requires
        context.max_matrix_chan < 16,
    ensures
        ({
            let (after, result) = read_output_shift(context, model);
            result matches Err(error) ==> refused_for_cause(context, after, error)
        }),
{
    lemma_cause_behind_shifts(context, model);
    lemma_cause_behind_shifts(context, past_flag(model));
    lemma_cause_shifts(context, past_flag(model), 0);
}

proof fn lemma_cause_behind_size(context: HeaderContext, model: HeaderModel)
    requires
        context.max_matrix_chan < 16,
    ensures
        ({
            let (after, result) = read_matrixing(context, model);
            result matches Err(error) ==> refused_for_cause(context, after, error)
        }),
{
    lemma_cause_behind_matrixing(context, model);
    lemma_cause_behind_matrixing(context, past_flag(model));
}

proof fn lemma_cause_size(context: HeaderContext, model: HeaderModel)
    requires
        context.max_matrix_chan < 16,
    ensures
        ({
            let (after, result) = read_header(context, model, HeaderStage::BlockSize);
            result matches Err(error) ==> refused_for_cause(context, after, error)
        }),
{
    lemma_cause_behind_size(context, model);
    lemma_cause_behind_size(context, past_flag(model));
    let size = bits_value(context.data, model.position + 1, 9) as usize;
    lemma_cause_behind_size(
        context,
        HeaderModel {
            position: model.position + 10,
            block_size: size,
            new_block_size: Some(size),
            ..model
        },
    );
}

/// A header is refused for a cause only.
pub proof fn headers_are_refused_for_cause(
    context: HeaderContext,
    model: HeaderModel,
    stage: HeaderStage,
)
    requires
        context.max_matrix_chan < 16,
    ensures
        ({
            let (after, result) = read_header(context, model, stage);
            result matches Err(error) ==> refused_for_cause(context, after, error)
        }),
{
    match stage {
        HeaderStage::Guards => {
            lemma_cause_size(context, model);
            lemma_cause_size(context, past_flag(model));
        },
        HeaderStage::BlockSize => {
            lemma_cause_size(context, model);
        },
        HeaderStage::OutputShift => {
            lemma_cause_behind_matrixing(context, model);
        },
        HeaderStage::Channel(channel) => {
            lemma_cause_channels(context, model, channel as int);
        },
    }
}

} // verus!
