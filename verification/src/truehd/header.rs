//! Reading of a whole block header.
//!
//! The guards, the matrixing and the parameters of a channel have a syntax of
//! their own; readers of these parts are handed in.

use crate::truehd::bits::{
    bits_left, bits_value, bits_value_in_range, signed_bits_value, BitReader,
};
use crate::truehd::block::{
    header_context, header_model, past_flag, read_block_size, read_channels, read_header,
    read_matrixing, read_output_shift, read_quantiser_step_size, read_shifts, read_steps,
    stage_read, BlockHeader, HeaderContext, HeaderModel, HeaderNeed, HeaderStage,
};
use crate::truehd::errors::BlockError;
use crate::truehd::laws::model_fits;
use crate::truehd::state::{Guards, ParserState, ParserSubstreamState};
use vstd::arithmetic::power2::lemma2_to64;
use vstd::prelude::*;

verus! {

/// The block size is that of `before`.
pub open spec fn same_size(before: HeaderModel, after: HeaderModel) -> bool {
    &&& after.block_size == before.block_size
    &&& after.new_block_size == before.new_block_size
}

/// The output shifts are those of `before`.
pub open spec fn same_shifts(before: HeaderModel, after: HeaderModel) -> bool {
    &&& after.output_shift == before.output_shift
    &&& after.new_output_shift == before.new_output_shift
}

/// The quantiser step sizes are those of `before`.
pub open spec fn same_steps(before: HeaderModel, after: HeaderModel) -> bool {
    &&& after.quantiser_step_size == before.quantiser_step_size
    &&& after.new_quantiser_step_size == before.new_quantiser_step_size
}

/// The header sets a block size that fits.
pub open spec fn size_set(context: HeaderContext, after: HeaderModel) -> bool {
    &&& after.new_block_size == Some(after.block_size)
    &&& 8 <= after.block_size <= 160
    &&& after.block_size <= context.samples_per_au
}

/// The header sets the output shift of every channel from `first` to the last
/// of the matrix, and of no other.
pub open spec fn shifts_set(
    context: HeaderContext,
    before: HeaderModel,
    after: HeaderModel,
    first: int,
) -> bool {
    &&& after.output_shift.len() == 16
    &&& after.new_output_shift.len() == 16
    &&& forall|channel: int|
        #![trigger after.new_output_shift[channel]]
        #![trigger after.output_shift[channel]]
        0 <= channel < 16 ==> if first <= channel <= context.max_matrix_chan {
            &&& after.new_output_shift[channel] == Some(after.output_shift[channel])
            &&& after.output_shift[channel] <= context.max_shift
        } else {
            &&& after.new_output_shift[channel] == before.new_output_shift[channel]
            &&& after.output_shift[channel] == before.output_shift[channel]
        }
}

/// The header sets the quantiser step size of every channel from `first` to the
/// last, and of no other.
pub open spec fn steps_set(
    context: HeaderContext,
    before: HeaderModel,
    after: HeaderModel,
    first: int,
) -> bool {
    &&& after.quantiser_step_size.len() == 16
    &&& after.new_quantiser_step_size.len() == 16
    &&& forall|channel: int|
        #![trigger after.new_quantiser_step_size[channel]]
        #![trigger after.quantiser_step_size[channel]]
        0 <= channel < 16 ==> if first <= channel <= context.max_chan {
            &&& after.new_quantiser_step_size[channel] == Some(after.quantiser_step_size[channel])
            &&& after.quantiser_step_size[channel] < 16
        } else {
            &&& after.new_quantiser_step_size[channel] == before.new_quantiser_step_size[channel]
            &&& after.quantiser_step_size[channel] == before.quantiser_step_size[channel]
        }
}

/// The output shifts are all set or none is, and so are the step sizes.
pub open spec fn all_or_none(
    context: HeaderContext,
    before: HeaderModel,
    after: HeaderModel,
) -> bool {
    &&& same_shifts(before, after) || shifts_set(context, before, after, 0)
    &&& same_steps(before, after) || steps_set(context, before, after, 0)
}

/// What is needed is at a channel from `first` to the last, or nothing.
pub open spec fn channel_needed(context: HeaderContext, need: HeaderNeed, first: int) -> bool {
    match need {
        HeaderNeed::Nothing => true,
        HeaderNeed::ChannelParams(channel) => first <= channel <= context.max_chan,
        _ => false,
    }
}

/// The channels' flags set nothing.
proof fn lemma_channels(context: HeaderContext, model: HeaderModel, channel: int)
    requires
        context.max_chan < 16,
        0 <= channel,
    ensures
        ({
            let (after, result) = read_channels(context, model, channel);
            &&& same_size(model, after)
            &&& same_shifts(model, after)
            &&& same_steps(model, after)
            &&& result matches Ok(need) ==> channel_needed(context, need, channel)
        }),
    decreases context.max_chan + 1 - channel,
{
    if channel <= context.max_chan && bits_left(context.data, model.position, 1) {
        lemma_channels(context, past_flag(model), channel + 1);
    }
}

/// The step sizes from `channel` on are all set.
proof fn lemma_steps(context: HeaderContext, model: HeaderModel, channel: int)
    requires
        model_fits(context, model),
        0 <= channel,
    ensures
        ({
            let (after, result) = read_steps(context, model, channel);
            result matches Ok(need) ==> {
                &&& same_size(model, after)
                &&& same_shifts(model, after)
                &&& steps_set(context, model, after, channel)
                &&& channel_needed(context, need, context.min_chan as int)
            }
        }),
    decreases context.max_chan + 1 - channel,
{
    if channel > context.max_chan {
        lemma_channels(context, model, context.min_chan as int);
    } else if bits_left(context.data, model.position, 4) {
        let step = bits_value(context.data, model.position, 4) as u32;
        bits_value_in_range(context.data, model.position, 4);
        lemma2_to64();
        let next = HeaderModel {
            position: model.position + 4,
            quantiser_step_size: model.quantiser_step_size.update(channel, step),
            new_quantiser_step_size: model.new_quantiser_step_size.update(channel, Some(step)),
            ..model
        };
        lemma_steps(context, next, channel + 1);
    }
}

/// From the step sizes on.
pub proof fn lemma_quantiser_step_size(context: HeaderContext, model: HeaderModel)
    requires
        model_fits(context, model),
    ensures
        ({
            let (after, result) = read_quantiser_step_size(context, model);
            result matches Ok(need) ==> {
                &&& same_size(model, after)
                &&& same_shifts(model, after)
                &&& same_steps(model, after) || steps_set(context, model, after, 0)
                &&& channel_needed(context, need, context.min_chan as int)
            }
        }),
{
    lemma_channels(context, model, context.min_chan as int);
    lemma_channels(context, past_flag(model), context.min_chan as int);
    lemma_steps(context, past_flag(model), 0);
}

/// The output shifts from `channel` on are all set.
proof fn lemma_shifts(context: HeaderContext, model: HeaderModel, channel: int)
    requires
        model_fits(context, model),
        0 <= channel,
    ensures
        ({
            let (after, result) = read_shifts(context, model, channel);
            result matches Ok(need) ==> {
                &&& same_size(model, after)
                &&& shifts_set(context, model, after, channel)
                &&& same_steps(model, after) || steps_set(context, model, after, 0)
                &&& channel_needed(context, need, context.min_chan as int)
            }
        }),
    decreases context.max_matrix_chan + 1 - channel,
{
    if channel > context.max_matrix_chan {
        lemma_quantiser_step_size(context, model);
    } else if bits_left(context.data, model.position, 4) {
        let shift = signed_bits_value(context.data, model.position, 4) as i8;
        if shift <= context.max_shift {
            let next = HeaderModel {
                position: model.position + 4,
                output_shift: model.output_shift.update(channel, shift),
                new_output_shift: model.new_output_shift.update(channel, Some(shift)),
                ..model
            };
            lemma_shifts(context, next, channel + 1);
        }
    }
}

/// From the output shifts on.
proof fn lemma_output_shift(context: HeaderContext, model: HeaderModel)
    requires
        model_fits(context, model),
    ensures
        ({
            let (after, result) = read_output_shift(context, model);
            result matches Ok(need) ==> {
                &&& same_size(model, after)
                &&& all_or_none(context, model, after)
                &&& channel_needed(context, need, context.min_chan as int)
            }
        }),
{
    lemma_quantiser_step_size(context, model);
    lemma_quantiser_step_size(context, past_flag(model));
    lemma_shifts(context, past_flag(model), 0);
}

/// What reading from the matrixing on, up to `need`, has set.
pub open spec fn rest_set(
    context: HeaderContext,
    before: HeaderModel,
    after: HeaderModel,
    need: HeaderNeed,
) -> bool {
    if need == HeaderNeed::Matrixing {
        &&& same_shifts(before, after)
        &&& same_steps(before, after)
    } else {
        &&& all_or_none(context, before, after)
        &&& channel_needed(context, need, context.min_chan as int)
    }
}

/// From the matrixing on.
proof fn lemma_matrixing(context: HeaderContext, model: HeaderModel)
    requires
        model_fits(context, model),
    ensures
        ({
            let (after, result) = read_matrixing(context, model);
            result matches Ok(need) ==> {
                &&& same_size(model, after)
                &&& rest_set(context, model, after, need)
            }
        }),
{
    lemma_output_shift(context, model);
    lemma_output_shift(context, past_flag(model));
}

/// From the block size on.
proof fn lemma_block_size(context: HeaderContext, model: HeaderModel)
    requires
        model_fits(context, model),
    ensures
        ({
            let (after, result) = read_block_size(context, model);
            result matches Ok(need) ==> {
                &&& same_size(model, after) || size_set(context, after)
                &&& rest_set(context, model, after, need)
            }
        }),
{
    lemma_matrixing(context, model);
    lemma_matrixing(context, past_flag(model));
    let size = bits_value(context.data, model.position + 1, 9) as usize;
    let sized = HeaderModel {
        position: model.position + 10,
        block_size: size,
        new_block_size: Some(size),
        ..model
    };
    lemma_matrixing(context, sized);
}

/// What a part of a header that was read up to `need` has set.
pub open spec fn part_set(
    context: HeaderContext,
    before: HeaderModel,
    after: HeaderModel,
    stage: HeaderStage,
    need: HeaderNeed,
) -> bool {
    match stage {
        HeaderStage::Guards if need == HeaderNeed::Guards => {
            &&& same_size(before, after)
            &&& same_shifts(before, after)
            &&& same_steps(before, after)
        },
        HeaderStage::Guards | HeaderStage::BlockSize => {
            &&& same_size(before, after) || size_set(context, after)
            &&& rest_set(context, before, after, need)
        },
        HeaderStage::OutputShift => {
            &&& same_size(before, after)
            &&& all_or_none(context, before, after)
            &&& channel_needed(context, need, context.min_chan as int)
        },
        HeaderStage::Channel(channel) => {
            &&& same_size(before, after)
            &&& same_shifts(before, after)
            &&& same_steps(before, after)
            &&& channel_needed(context, need, channel as int)
        },
    }
}

/// A part of a header that is read without an error sets the block size or not,
/// all output shifts or none, and all step sizes or none.
proof fn lemma_part_set(context: HeaderContext, model: HeaderModel, stage: HeaderStage)
    requires
        model_fits(context, model),
    ensures
        ({
            let (after, result) = read_header(context, model, stage);
            result matches Ok(need) ==> part_set(context, model, after, stage, need)
        }),
{
    match stage {
        HeaderStage::Guards => {
            lemma_block_size(context, model);
            lemma_block_size(context, past_flag(model));
        },
        HeaderStage::BlockSize => {
            lemma_block_size(context, model);
        },
        HeaderStage::OutputShift => {
            lemma_output_shift(context, model);
        },
        HeaderStage::Channel(channel) => {
            lemma_channels(context, model, channel as int);
        },
    }
}

/// A place in the reading of a header: the parser, the bits that are left and
/// the header so far.
pub struct HeaderPoint<'a, M, P> {
    pub state: ParserState,
    pub reader: BitReader<'a>,
    pub header: BlockHeader<M, P>,
}

/// Reading from one place, at a stage, up to the next part with a syntax of its
/// own.
pub struct HeaderHop<'a, M, P> {
    pub stage: HeaderStage,
    pub from: HeaderPoint<'a, M, P>,
    pub to: HeaderPoint<'a, M, P>,
    pub outcome: Result<HeaderNeed, BlockError>,
}

/// The hop reads what the data holds there.
pub open spec fn hop_read<'a, M, P>(hop: HeaderHop<'a, M, P>) -> bool {
    &&& hop.to.reader.data() == hop.from.reader.data()
    &&& stage_read(
        (hop.from.state, hop.to.state),
        (hop.from.header, hop.to.header),
        hop.from.reader.data(),
        (hop.from.reader.pos(), hop.to.reader.pos()),
        hop.stage,
        hop.outcome,
    )
}

/// The parser goes on from `before` with `substream` in place of the state of
/// the substream being parsed.
pub open spec fn substream_taken(
    before: ParserState,
    after: ParserState,
    substream: ParserSubstreamState,
) -> bool {
    &&& after == (ParserState { substream_state: after.substream_state, ..before })
    &&& after.substream_state@ == before.substream_state@.update(
        before.substream_index as int,
        substream,
    )
}

/// The part that `need` names was read at `before`, and reading goes on at
/// `after`.
pub open spec fn part_read<
    'a,
    M,
    P,
    FG: Fn(BitReader<'a>) -> (BitReader<'a>, Result<Guards, BlockError>),
    FM: Fn(&ParserState, BitReader<'a>) -> (
        ParserSubstreamState,
        BitReader<'a>,
        Result<M, BlockError>,
    ),
    FC: Fn(&ParserState, BitReader<'a>, usize) -> (
        ParserSubstreamState,
        BitReader<'a>,
        Result<P, BlockError>,
    ),
>(
    readers: (FG, FM, FC),
    before: HeaderPoint<'a, M, P>,
    need: HeaderNeed,
    after: HeaderPoint<'a, M, P>,
) -> bool {
    match need {
        HeaderNeed::Guards => {
            let guards = after.state.substream().guards;
            &&& readers.0.ensures((before.reader,), (after.reader, Ok(guards)))
            &&& substream_taken(
                before.state,
                after.state,
                ParserSubstreamState { guards, ..before.state.substream() },
            )
            &&& after.header == before.header
        },
        HeaderNeed::Matrixing => {
            &&& after.header.matrixing matches Some(matrixing)
            &&& readers.1.ensures(
                (&before.state, before.reader),
                (after.state.substream(), after.reader, Ok(matrixing)),
            )
            &&& substream_taken(before.state, after.state, after.state.substream())
            &&& after.header == (BlockHeader { matrixing: Some(matrixing), ..before.header })
        },
        HeaderNeed::ChannelParams(channel) => {
            &&& after.header.channel_params@[channel as int] matches Some(params)
            &&& readers.2.ensures(
                (&before.state, before.reader, channel),
                (after.state.substream(), after.reader, Ok(params)),
            )
            &&& substream_taken(before.state, after.state, after.state.substream())
            &&& after.header == (BlockHeader {
                channel_params: after.header.channel_params,
                ..before.header
            })
            &&& after.header.channel_params@ == before.header.channel_params@.update(
                channel as int,
                Some(params),
            )
        },
        HeaderNeed::Nothing => false,
    }
}

/// The part that `need` names could not be read at `before`, for the reason
/// `error`, which left the parser as `after` and the bits as `reader`.
pub open spec fn part_failed<
    'a,
    M,
    P,
    FG: Fn(BitReader<'a>) -> (BitReader<'a>, Result<Guards, BlockError>),
    FM: Fn(&ParserState, BitReader<'a>) -> (
        ParserSubstreamState,
        BitReader<'a>,
        Result<M, BlockError>,
    ),
    FC: Fn(&ParserState, BitReader<'a>, usize) -> (
        ParserSubstreamState,
        BitReader<'a>,
        Result<P, BlockError>,
    ),
>(
    readers: (FG, FM, FC),
    before: HeaderPoint<'a, M, P>,
    need: HeaderNeed,
    after: ParserState,
    reader: BitReader<'a>,
    error: BlockError,
) -> bool {
    match need {
        HeaderNeed::Guards => {
            &&& readers.0.ensures((before.reader,), (reader, Err(error)))
            &&& after == before.state
        },
        HeaderNeed::Matrixing => {
            &&& readers.1.ensures(
                (&before.state, before.reader),
                (after.substream(), reader, Err(error)),
            )
            &&& substream_taken(before.state, after, after.substream())
        },
        HeaderNeed::ChannelParams(channel) => {
            &&& readers.2.ensures(
                (&before.state, before.reader, channel),
                (after.substream(), reader, Err(error)),
            )
            &&& substream_taken(before.state, after, after.substream())
        },
        HeaderNeed::Nothing => false,
    }
}

/// Whether `next` is the stage behind the part that `need` names.
pub open spec fn follows(need: HeaderNeed, next: HeaderStage) -> bool {
    match need {
        HeaderNeed::Guards => next == HeaderStage::BlockSize,
        HeaderNeed::Matrixing => next == HeaderStage::OutputShift,
        HeaderNeed::ChannelParams(channel) => next == HeaderStage::Channel((channel + 1) as usize),
        HeaderNeed::Nothing => false,
    }
}

/// The part that a hop asks for is read, and the next hop starts there.
pub open spec fn hop_linked<
    'a,
    M,
    P,
    FG: Fn(BitReader<'a>) -> (BitReader<'a>, Result<Guards, BlockError>),
    FM: Fn(&ParserState, BitReader<'a>) -> (
        ParserSubstreamState,
        BitReader<'a>,
        Result<M, BlockError>,
    ),
    FC: Fn(&ParserState, BitReader<'a>, usize) -> (
        ParserSubstreamState,
        BitReader<'a>,
        Result<P, BlockError>,
    ),
>(readers: (FG, FM, FC), hops: Seq<HeaderHop<'a, M, P>>, index: int) -> bool {
    &&& hops[index].outcome matches Ok(need)
    &&& follows(need, hops[index + 1].stage)
    &&& part_read(readers, hops[index].to, need, hops[index + 1].from)
}

/// The hops lead from `start` on: each reads what is there, and between two of
/// them the part that the first one asks for is read. They lead up to `end`,
/// from where nothing is read yet, at the stage `next`.
pub open spec fn hops_lead<
    'a,
    M,
    P,
    FG: Fn(BitReader<'a>) -> (BitReader<'a>, Result<Guards, BlockError>),
    FM: Fn(&ParserState, BitReader<'a>) -> (
        ParserSubstreamState,
        BitReader<'a>,
        Result<M, BlockError>,
    ),
    FC: Fn(&ParserState, BitReader<'a>, usize) -> (
        ParserSubstreamState,
        BitReader<'a>,
        Result<P, BlockError>,
    ),
>(
    readers: (FG, FM, FC),
    start: HeaderPoint<'a, M, P>,
    hops: Seq<HeaderHop<'a, M, P>>,
    end: HeaderPoint<'a, M, P>,
    next: HeaderStage,
) -> bool {
    &&& if hops.len() == 0 {
        &&& end == start
        &&& next == HeaderStage::Guards
    } else {
        &&& hops[0].from == start
        &&& hops[0].stage == HeaderStage::Guards
        &&& hops.last().outcome matches Ok(need)
        &&& follows(need, next)
        &&& part_read(readers, hops.last().to, need, end)
    }
    &&& forall|index: int|
        0 <= index < hops.len() ==> hop_read(#[trigger] hops[index])
    &&& forall|index: int|
        0 <= index < hops.len() - 1 ==> #[trigger] hop_linked(readers, hops, index)
}

/// Reading ends with a last hop: the header is complete there, or it ends in an
/// error of its own, or the part that it asks for cannot be read.
pub open spec fn header_ended<
    'a,
    M,
    P,
    FG: Fn(BitReader<'a>) -> (BitReader<'a>, Result<Guards, BlockError>),
    FM: Fn(&ParserState, BitReader<'a>) -> (
        ParserSubstreamState,
        BitReader<'a>,
        Result<M, BlockError>,
    ),
    FC: Fn(&ParserState, BitReader<'a>, usize) -> (
        ParserSubstreamState,
        BitReader<'a>,
        Result<P, BlockError>,
    ),
>(
    readers: (FG, FM, FC),
    last: HeaderHop<'a, M, P>,
    state: ParserState,
    reader: BitReader<'a>,
    result: Result<BlockHeader<M, P>, BlockError>,
) -> bool {
    &&& hop_read(last)
    &&& match last.outcome {
        Ok(HeaderNeed::Nothing) => {
            &&& result matches Ok(header) && header == last.to.header
            &&& state == last.to.state
            &&& reader == last.to.reader
        },
        Ok(need) => {
            &&& result matches Err(error)
            &&& part_failed(readers, last.to, need, state, reader, error)
        },
        Err(reason) => {
            &&& result matches Err(error) && error == reason
            &&& state == last.to.state
            &&& reader == last.to.reader
        },
    }
}

/// The limits of a substream, and what a header sets in it, are as in `before`.
pub open spec fn keeps_header_values(
    before: ParserSubstreamState,
    after: ParserSubstreamState,
) -> bool {
    &&& after.min_chan == before.min_chan
    &&& after.max_chan == before.max_chan
    &&& after.max_matrix_chan == before.max_matrix_chan
    &&& after.max_shift == before.max_shift
    &&& after.guards == before.guards
    &&& after.block_size == before.block_size
    &&& after.output_shift == before.output_shift
    &&& after.quantiser_step_size == before.quantiser_step_size
}

/// What a whole header sets: the block size or not, all output shifts or none,
/// all step sizes or none, and parameters of no channel outside the substream's.
/// What it does not set stays, and what it sets is what the parser goes by.
pub open spec fn header_sets<M, P>(
    before: ParserState,
    after: ParserState,
    header: BlockHeader<M, P>,
) -> bool {
    let old_substream = before.substream();
    let new_substream = after.substream();
    &&& header.guards is None
    &&& match header.block_size {
        Some(size) => {
            &&& new_substream.block_size == size
            &&& 8 <= size <= 160
            &&& size <= before.samples_per_au
        },
        None => new_substream.block_size == old_substream.block_size,
    }
    &&& {
        ||| {
            &&& forall|channel: int| 0 <= channel < 16 ==> header.output_shift@[channel] is None
            &&& new_substream.output_shift@ == old_substream.output_shift@
        }
        ||| forall|channel: int|
            #![trigger header.output_shift@[channel]]
            #![trigger new_substream.output_shift@[channel]]
            0 <= channel < 16 ==> if channel <= old_substream.max_matrix_chan {
                &&& header.output_shift@[channel] == Some(new_substream.output_shift@[channel])
                &&& new_substream.output_shift@[channel] <= old_substream.max_shift
            } else {
                &&& header.output_shift@[channel] is None
                &&& new_substream.output_shift@[channel] == old_substream.output_shift@[channel]
            }
    }
    &&& {
        ||| {
            &&& forall|channel: int|
                0 <= channel < 16 ==> header.quantiser_step_size@[channel] is None
            &&& new_substream.quantiser_step_size@ == old_substream.quantiser_step_size@
        }
        ||| forall|channel: int|
            #![trigger header.quantiser_step_size@[channel]]
            #![trigger new_substream.quantiser_step_size@[channel]]
            0 <= channel < 16 ==> if channel <= old_substream.max_chan {
                &&& header.quantiser_step_size@[channel] == Some(
                    new_substream.quantiser_step_size@[channel],
                )
                &&& new_substream.quantiser_step_size@[channel] < 16
            } else {
                &&& header.quantiser_step_size@[channel] is None
                &&& new_substream.quantiser_step_size@[channel]
                    == old_substream.quantiser_step_size@[channel]
            }
    }
    &&& forall|channel: int|
        0 <= channel < 16 && #[trigger] header.channel_params@[channel] is Some
            ==> old_substream.min_chan <= channel <= old_substream.max_chan
}

/// How far a header has been read.
enum Settled {
    /// Nothing is settled.
    Nothing,
    /// The block size is settled.
    Size,
    /// The block size, the output shifts and the step sizes are settled.
    Values,
}

/// What is settled before a stage.
spec fn settled_before(stage: HeaderStage) -> Settled {
    match stage {
        HeaderStage::Guards | HeaderStage::BlockSize => Settled::Nothing,
        HeaderStage::OutputShift => Settled::Size,
        HeaderStage::Channel(_) => Settled::Values,
    }
}

/// What is settled where `need` comes up.
spec fn settled_at(need: HeaderNeed) -> Settled {
    match need {
        HeaderNeed::Guards => Settled::Nothing,
        HeaderNeed::Matrixing => Settled::Size,
        _ => Settled::Values,
    }
}

/// The channels that a stage or a need speaks of are the substream's.
spec fn place_fits(substream: ParserSubstreamState, stage: HeaderStage) -> bool {
    stage matches HeaderStage::Channel(channel) ==> substream.min_chan <= channel <= 16
}

/// What holds of a header that has been read up to a place.
#[verifier::opaque]
spec fn read_so_far<'a, M, P>(
    start: HeaderPoint<'a, M, P>,
    point: HeaderPoint<'a, M, P>,
    settled: Settled,
) -> bool {
    let first = start.state.substream();
    let now = point.state.substream();
    let context = header_context(
        start.reader.data(),
        first,
        start.state.samples_per_au,
        start.state.substream_index,
    );
    let before = header_model(first, start.header, 0);
    let after = header_model(now, point.header, 0);
    &&& now.min_chan == first.min_chan
    &&& now.max_chan == first.max_chan
    &&& now.max_matrix_chan == first.max_matrix_chan
    &&& now.max_shift == first.max_shift
    &&& point.header.guards is None
    &&& settled is Nothing ==> same_size(before, after)
    &&& same_size(before, after) || size_set(context, after)
    &&& if settled is Values {
        all_or_none(context, before, after)
    } else {
        &&& same_shifts(before, after)
        &&& same_steps(before, after)
    }
    &&& forall|channel: int|
        0 <= channel < 16 && #[trigger] point.header.channel_params@[channel] is Some
            ==> first.min_chan <= channel <= first.max_chan
}

/// The start of a header.
proof fn lemma_start<'a, M, P>(start: HeaderPoint<'a, M, P>)
    requires
        start.header.updates_nothing(),
    ensures
        read_so_far(start, start, Settled::Nothing),
{
    reveal(read_so_far);
}

/// Reading a stage settles what it should.
proof fn lemma_hop_settles<'a, M, P>(
    start: HeaderPoint<'a, M, P>,
    hop: HeaderHop<'a, M, P>,
    need: HeaderNeed,
)
    requires
        read_so_far(start, hop.from, settled_before(hop.stage)),
        hop_read(hop),
        hop.outcome == Ok::<HeaderNeed, BlockError>(need),
        hop.from.state.has_substream(),
        hop.from.state.samples_per_au == start.state.samples_per_au,
        start.state.substream().max_chan < 16,
        start.state.substream().max_matrix_chan < 16,
        place_fits(start.state.substream(), hop.stage),
    ensures
        read_so_far(start, hop.to, settled_at(need)),
        need matches HeaderNeed::ChannelParams(channel) ==> {
            &&& start.state.substream().min_chan <= channel <= start.state.substream().max_chan
            &&& parts_left(HeaderStage::Channel((channel + 1) as usize)) < parts_left(hop.stage)
        },
        need == HeaderNeed::Guards ==> hop.stage == HeaderStage::Guards,
        need == HeaderNeed::Matrixing ==> hop.stage == HeaderStage::Guards || hop.stage
            == HeaderStage::BlockSize,
{
    reveal(read_so_far);
    let from = hop.from;
    let context = header_context(
        from.reader.data(),
        from.state.substream(),
        from.state.samples_per_au,
        from.state.substream_index,
    );
    let model = header_model(from.state.substream(), from.header, from.reader.pos());
    lemma_part_set(context, model, hop.stage);
}

/// Reading a part with a syntax of its own settles nothing more.
proof fn lemma_part_settles<
    'a,
    M,
    P,
    FG: Fn(BitReader<'a>) -> (BitReader<'a>, Result<Guards, BlockError>),
    FM: Fn(&ParserState, BitReader<'a>) -> (
        ParserSubstreamState,
        BitReader<'a>,
        Result<M, BlockError>,
    ),
    FC: Fn(&ParserState, BitReader<'a>, usize) -> (
        ParserSubstreamState,
        BitReader<'a>,
        Result<P, BlockError>,
    ),
>(
    readers: (FG, FM, FC),
    start: HeaderPoint<'a, M, P>,
    before: HeaderPoint<'a, M, P>,
    need: HeaderNeed,
    after: HeaderPoint<'a, M, P>,
)
    requires
        read_so_far(start, before, settled_at(need)),
        readers_keep_to_their_part(readers),
        part_read(readers, before, need, after),
        before.reader.wf(),
        before.state.has_substream(),
        start.state.substream().max_chan < 16,
        need matches HeaderNeed::ChannelParams(channel) ==> start.state.substream().min_chan
            <= channel <= start.state.substream().max_chan,
    ensures
        read_so_far(start, after, settled_at(need)),
        after.state.substream().max_chan == start.state.substream().max_chan,
        after.state.substream().max_matrix_chan == start.state.substream().max_matrix_chan,
{
    reveal(read_so_far);
}

/// A header that is complete sets what a header sets.
proof fn lemma_complete<'a, M, P>(start: HeaderPoint<'a, M, P>, end: HeaderPoint<'a, M, P>)
    requires
        start.header.updates_nothing(),
        read_so_far(start, end, Settled::Values),
    ensures
        header_sets(start.state, end.state, end.header),
{
    reveal(read_so_far);
}

/// One more hop leads on.
proof fn lemma_hops_lead_on<
    'a,
    M,
    P,
    FG: Fn(BitReader<'a>) -> (BitReader<'a>, Result<Guards, BlockError>),
    FM: Fn(&ParserState, BitReader<'a>) -> (
        ParserSubstreamState,
        BitReader<'a>,
        Result<M, BlockError>,
    ),
    FC: Fn(&ParserState, BitReader<'a>, usize) -> (
        ParserSubstreamState,
        BitReader<'a>,
        Result<P, BlockError>,
    ),
>(
    readers: (FG, FM, FC),
    start: HeaderPoint<'a, M, P>,
    hops: Seq<HeaderHop<'a, M, P>>,
    hop: HeaderHop<'a, M, P>,
    need: HeaderNeed,
    after: HeaderPoint<'a, M, P>,
    next: HeaderStage,
)
    requires
        hops_lead(readers, start, hops, hop.from, hop.stage),
        hop_read(hop),
        hop.outcome == Ok::<HeaderNeed, BlockError>(need),
        part_read(readers, hop.to, need, after),
        follows(need, next),
    ensures
        hops_lead(readers, start, hops.push(hop), after, next),
{
    let longer = hops.push(hop);
    assert(longer.last() == hop);
    assert forall|index: int| 0 <= index < longer.len() - 1 implies #[trigger] hop_linked(
        readers,
        longer,
        index,
    ) by {
        if index < hops.len() - 1 {
            assert(hop_linked(readers, hops, index));
        }
    }
}

/// How many parts may still follow a stage.
spec fn parts_left(stage: HeaderStage) -> int {
    match stage {
        HeaderStage::Guards => 20,
        HeaderStage::BlockSize => 19,
        HeaderStage::OutputShift => 18,
        HeaderStage::Channel(channel) => if channel <= 17 {
            17 - channel
        } else {
            0
        },
    }
}

/// The readers can be called, keep to the data and, where they succeed, leave
/// the limits of the substream and what the header sets alone.
pub open spec fn readers_keep_to_their_part<
    'a,
    M,
    P,
    FG: Fn(BitReader<'a>) -> (BitReader<'a>, Result<Guards, BlockError>),
    FM: Fn(&ParserState, BitReader<'a>) -> (
        ParserSubstreamState,
        BitReader<'a>,
        Result<M, BlockError>,
    ),
    FC: Fn(&ParserState, BitReader<'a>, usize) -> (
        ParserSubstreamState,
        BitReader<'a>,
        Result<P, BlockError>,
    ),
>(readers: (FG, FM, FC)) -> bool {
    &&& forall|bits: BitReader<'a>| bits.wf() ==> #[trigger] readers.0.requires((bits,))
    &&& forall|
        bits: BitReader<'a>,
        left: BitReader<'a>,
        result: Result<Guards, BlockError>,
    |
        bits.wf() && #[trigger] readers.0.ensures((bits,), (left, result)) ==> {
            &&& left.wf()
            &&& left.data() == bits.data()
        }
    &&& forall|parser: &ParserState, bits: BitReader<'a>|
        bits.wf() ==> #[trigger] readers.1.requires((parser, bits))
    &&& forall|
        parser: &ParserState,
        bits: BitReader<'a>,
        substream: ParserSubstreamState,
        left: BitReader<'a>,
        result: Result<M, BlockError>,
    |
        bits.wf() && #[trigger] readers.1.ensures((parser, bits), (substream, left, result)) ==> {
            &&& left.wf()
            &&& left.data() == bits.data()
            &&& result is Ok ==> keeps_header_values(parser.substream(), substream)
        }
    &&& forall|parser: &ParserState, bits: BitReader<'a>, channel: usize|
        bits.wf() ==> #[trigger] readers.2.requires((parser, bits, channel))
    &&& forall|
        parser: &ParserState,
        bits: BitReader<'a>,
        channel: usize,
        substream: ParserSubstreamState,
        left: BitReader<'a>,
        result: Result<P, BlockError>,
    |
        bits.wf() && #[trigger] readers.2.ensures(
            (parser, bits, channel),
            (substream, left, result),
        ) ==> {
            &&& left.wf()
            &&& left.data() == bits.data()
            &&& result is Ok ==> keeps_header_values(parser.substream(), substream)
        }
}

impl<M, P> BlockHeader<M, P> {
    /// Reads the part that `need` names and takes it over.
    fn read_part<'a, FG, FM, FC>(
        &mut self,
        state: &mut ParserState,
        reader: &mut BitReader<'a>,
        need: HeaderNeed,
        readers: &(FG, FM, FC),
    ) -> (result: Result<(), BlockError>) where
        FG: Fn(BitReader<'a>) -> (BitReader<'a>, Result<Guards, BlockError>),
        FM: Fn(&ParserState, BitReader<'a>) -> (
            ParserSubstreamState,
            BitReader<'a>,
            Result<M, BlockError>,
        ),
        FC: Fn(&ParserState, BitReader<'a>, usize) -> (
            ParserSubstreamState,
            BitReader<'a>,
            Result<P, BlockError>,
        ),

        requires
            old(reader).wf(),
            old(state).has_substream(),
            need != HeaderNeed::Nothing,
            need matches HeaderNeed::ChannelParams(channel) ==> channel < 16,
            readers_keep_to_their_part(*readers),
        ensures
            final(reader).wf(),
            final(reader).data() == old(reader).data(),
            substream_taken(*old(state), *final(state), final(state).substream()),
            ({
                let before = HeaderPoint {
                    state: *old(state),
                    reader: *old(reader),
                    header: *old(self),
                };
                let after = HeaderPoint {
                    state: *final(state),
                    reader: *final(reader),
                    header: *final(self),
                };
                match result {
                    Ok(_) => part_read(*readers, before, need, after),
                    Err(error) => part_failed(
                        *readers,
                        before,
                        need,
                        *final(state),
                        *final(reader),
                        error,
                    ),
                }
            }),
    {
        let index: usize = state.substream_index;
        match need {
            HeaderNeed::Guards => {
                let (left, guards) = (readers.0)(*reader);
                *reader = left;
                assert(state.substream_state@ =~= state.substream_state@.update(
                    index as int,
                    state.substream(),
                ));
                state.substream_state[index].guards = guards?;
            },
            HeaderNeed::Matrixing => {
                let (substream, left, matrixing) = (readers.1)(state, *reader);
                *reader = left;
                state.substream_state[index] = substream;
                self.matrixing = Some(matrixing?);
            },
            HeaderNeed::ChannelParams(channel) => {
                let (substream, left, params) = (readers.2)(state, *reader, channel);
                *reader = left;
                state.substream_state[index] = substream;
                self.channel_params[channel] = Some(params?);
            },
            HeaderNeed::Nothing => {},
        }
        Ok(())
    }

    /// Reads a whole block header and takes it over into the substream.
    ///
    /// `readers` read the guards, the matrixing and the parameters of a channel.
    /// The last two are given the parser and return the state of the substream
    /// with what they read.
    pub fn read<'a, FG, FM, FC>(
        state: &mut ParserState,
        reader: &mut BitReader<'a>,
        readers: &(FG, FM, FC),
    ) -> (result: Result<Self, BlockError>) where
        FG: Fn(BitReader<'a>) -> (BitReader<'a>, Result<Guards, BlockError>),
        FM: Fn(&ParserState, BitReader<'a>) -> (
            ParserSubstreamState,
            BitReader<'a>,
            Result<M, BlockError>,
        ),
        FC: Fn(&ParserState, BitReader<'a>, usize) -> (
            ParserSubstreamState,
            BitReader<'a>,
            Result<P, BlockError>,
        ),

        requires
            old(reader).wf(),
            old(state).has_substream() ==> old(state).substream().max_chan < 16,
            old(state).has_substream() ==> old(state).substream().max_matrix_chan < 16,
            readers_keep_to_their_part(*readers),
        ensures
            final(reader).wf(),
            final(reader).data() == old(reader).data(),
            final(state).same_stream(old(state)),
            final(state).advance == old(state).advance,
            !old(state).has_substream() ==> {
                &&& result matches Err(error) && error == old(state).missing_substream()
                &&& final(state).substream_state@ == old(state).substream_state@
            },
            old(state).has_substream() ==> final(state).substream_state@
                == old(state).substream_state@.update(
                old(state).substream_index as int,
                final(state).substream(),
            ),
            result matches Ok(header) ==> header_sets(*old(state), *final(state), header),
            exists|
                start: HeaderPoint<'a, M, P>,
                hops: Seq<HeaderHop<'a, M, P>>,
                last: HeaderHop<'a, M, P>,
            |
                {
                    &&& start.state == *old(state)
                    &&& start.reader == *old(reader)
                    &&& start.header.updates_nothing()
                    &&& #[trigger] hops_lead(*readers, start, hops, last.from, last.stage)
                    &&& header_ended(*readers, last, *final(state), *final(reader), result)
                },
    {
        let mut header: Self = BlockHeader::new();
        let mut stage: HeaderStage = HeaderStage::Guards;
        let ghost start = HeaderPoint { state: *state, reader: *reader, header };
        let ghost mut hops: Seq<HeaderHop<'a, M, P>> = Seq::empty();
        let ghost index = state.substream_index as int;
        let ghost there = state.has_substream();
        let ghost mut point = start;
        proof {
            lemma_start(start);
        }
        loop
            invariant
                reader.wf(),
                reader.data() == old(reader).data(),
                readers_keep_to_their_part(*readers),
                start.state == *old(state),
                start.reader == *old(reader),
                start.header.updates_nothing(),
                there == old(state).has_substream(),
                index == old(state).substream_index,
                state.same_stream(old(state)),
                state.advance == old(state).advance,
                state.has_substream() == there,
                there ==> old(state).substream().max_chan < 16,
                there ==> old(state).substream().max_matrix_chan < 16,
                there ==> state.substream().max_chan < 16,
                there ==> state.substream().max_matrix_chan < 16,
                !there ==> state.substream_state@ == old(state).substream_state@,
                there ==> state.substream_state@ == old(state).substream_state@.update(
                    index,
                    state.substream(),
                ),
                point == (HeaderPoint { state: *state, reader: *reader, header }),
                there ==> read_so_far(start, point, settled_before(stage)),
                there ==> place_fits(old(state).substream(), stage),
                hops_lead(*readers, start, hops, point, stage),
            decreases parts_left(stage),
        {
            let outcome: Result<HeaderNeed, BlockError> = header.read_stage(state, reader, stage);
            let ghost to = HeaderPoint { state: *state, reader: *reader, header };
            let ghost hop = HeaderHop { stage, from: point, to, outcome };
            assert(hop_read(hop));
            assert(hops_lead(*readers, start, hops, hop.from, hop.stage));
            let need: HeaderNeed = match outcome {
                Ok(need) => need,
                Err(error) => {
                    assert(header_ended(*readers, hop, *state, *reader, Err(error)));
                    return Err(error);
                },
            };
            proof {
                lemma_hop_settles(start, hop, need);
            }
            let next: HeaderStage = match need.next_stage() {
                Some(next) => next,
                None => {
                    proof {
                        lemma_complete(start, to);
                    }
                    assert(header_ended(*readers, hop, *state, *reader, Ok(header)));
                    return Ok(header);
                },
            };
            match header.read_part(state, reader, need, readers) {
                Ok(()) => {},
                Err(error) => {
                    assert(header_ended(
                        *readers,
                        hop,
                        *state,
                        *reader,
                        Err(error),
                    ));
                    return Err(error);
                },
            }
            proof {
                point = HeaderPoint { state: *state, reader: *reader, header };
                lemma_part_settles(*readers, start, to, need, point);
                lemma_hops_lead_on(*readers, start, hops, hop, need, point, next);
                hops = hops.push(hop);
                assert(read_so_far(start, point, settled_before(next)));
            }
            stage = next;
        }
    }
}

/// What has a syntax of its own is taken over where it belongs: new guards into
/// the substream and into nothing else, the matrixing into the header, and the
/// parameters of a channel into the place of that channel. The parser goes on
/// with the substream and the bits that the reader left.
pub proof fn parts_are_taken_over_where_they_belong<
    'a,
    M,
    P,
    FG: Fn(BitReader<'a>) -> (BitReader<'a>, Result<Guards, BlockError>),
    FM: Fn(&ParserState, BitReader<'a>) -> (
        ParserSubstreamState,
        BitReader<'a>,
        Result<M, BlockError>,
    ),
    FC: Fn(&ParserState, BitReader<'a>, usize) -> (
        ParserSubstreamState,
        BitReader<'a>,
        Result<P, BlockError>,
    ),
>(
    readers: (FG, FM, FC),
    before: HeaderPoint<'a, M, P>,
    need: HeaderNeed,
    after: HeaderPoint<'a, M, P>,
    channel: int,
)
    requires
        part_read(readers, before, need, after),
        before.state.has_substream(),
        need matches HeaderNeed::ChannelParams(asked) ==> asked < 16,
        0 <= channel < 16,
    ensures
        ({
            let now = after.state.substream_state@[before.state.substream_index as int];
            let then = before.state.substream_state@[before.state.substream_index as int];
            &&& after.header.guards == before.header.guards
            &&& after.header.block_size == before.header.block_size
            &&& after.header.output_shift == before.header.output_shift
            &&& after.header.quantiser_step_size == before.header.quantiser_step_size
            &&& need == HeaderNeed::Guards ==> {
                &&& readers.0.ensures((before.reader,), (after.reader, Ok(now.guards)))
                &&& now == (ParserSubstreamState { guards: now.guards, ..then })
                &&& after.header == before.header
            }
            &&& need == HeaderNeed::Matrixing ==> {
                &&& after.header.matrixing is Some
                &&& readers.1.ensures(
                    (&before.state, before.reader),
                    (now, after.reader, Ok(after.header.matrixing->0)),
                )
                &&& after.header.channel_params == before.header.channel_params
            }
            &&& need matches HeaderNeed::ChannelParams(asked) ==> {
                &&& after.header.matrixing == before.header.matrixing
                &&& channel == asked ==> after.header.channel_params@[channel] is Some
                    && readers.2.ensures(
                    (&before.state, before.reader, asked),
                    (now, after.reader, Ok(after.header.channel_params@[channel]->0)),
                )
                &&& channel != asked ==> after.header.channel_params@[channel]
                    == before.header.channel_params@[channel]
            }
        }),
{
}

/// A header is read from its guards on, and goes on right behind each part with a
/// syntax of its own: at the block size behind the guards, at the output shifts
/// behind the matrixing, and at the next channel behind the parameters of one. No
/// part is passed over and none is read twice.
pub proof fn headers_go_on_behind_each_part<
    'a,
    M,
    P,
    FG: Fn(BitReader<'a>) -> (BitReader<'a>, Result<Guards, BlockError>),
    FM: Fn(&ParserState, BitReader<'a>) -> (
        ParserSubstreamState,
        BitReader<'a>,
        Result<M, BlockError>,
    ),
    FC: Fn(&ParserState, BitReader<'a>, usize) -> (
        ParserSubstreamState,
        BitReader<'a>,
        Result<P, BlockError>,
    ),
>(
    readers: (FG, FM, FC),
    start: HeaderPoint<'a, M, P>,
    hops: Seq<HeaderHop<'a, M, P>>,
    end: HeaderPoint<'a, M, P>,
    next: HeaderStage,
    index: int,
)
    requires
        hops_lead(readers, start, hops, end, next),
        0 <= index < hops.len(),
        hops[index].outcome matches Ok(HeaderNeed::ChannelParams(channel)) ==> channel < 16,
    ensures
        hops[0].stage == HeaderStage::Guards,
        hops[0].from == start,
        ({
            let stage = if index + 1 < hops.len() {
                hops[index + 1].stage
            } else {
                next
            };
            &&& hops[index].outcome matches Ok(need)
            &&& need != HeaderNeed::Nothing
            &&& need == HeaderNeed::Guards ==> stage == HeaderStage::BlockSize
            &&& need == HeaderNeed::Matrixing ==> stage == HeaderStage::OutputShift
            &&& need matches HeaderNeed::ChannelParams(channel) ==> (stage matches
                HeaderStage::Channel(following) && following == channel + 1)
        }),
{
    if index + 1 < hops.len() {
        assert(hop_linked(readers, hops, index));
    }
}

/// A part that cannot be read gives its own error, and leaves the bits, and but
/// for the guards the substream, where its reader left them.
pub proof fn failed_parts_give_their_own_error<
    'a,
    M,
    P,
    FG: Fn(BitReader<'a>) -> (BitReader<'a>, Result<Guards, BlockError>),
    FM: Fn(&ParserState, BitReader<'a>) -> (
        ParserSubstreamState,
        BitReader<'a>,
        Result<M, BlockError>,
    ),
    FC: Fn(&ParserState, BitReader<'a>, usize) -> (
        ParserSubstreamState,
        BitReader<'a>,
        Result<P, BlockError>,
    ),
>(
    readers: (FG, FM, FC),
    last: HeaderHop<'a, M, P>,
    state: ParserState,
    reader: BitReader<'a>,
    error: BlockError,
    need: HeaderNeed,
)
    requires
        header_ended(readers, last, state, reader, Err::<BlockHeader<M, P>, BlockError>(error)),
        last.outcome == Ok::<HeaderNeed, BlockError>(need),
        last.to.state.has_substream(),
    ensures
        need != HeaderNeed::Nothing,
        need == HeaderNeed::Guards ==> readers.0.ensures(
            (last.to.reader,),
            (reader, Err(error)),
        ) && state == last.to.state,
        need == HeaderNeed::Matrixing ==> readers.1.ensures(
            (&last.to.state, last.to.reader),
            (state.substream(), reader, Err(error)),
        ),
        need matches HeaderNeed::ChannelParams(channel) ==> readers.2.ensures(
            (&last.to.state, last.to.reader, channel),
            (state.substream(), reader, Err(error)),
        ),
        state.advance == last.to.state.advance,
        state.samples_per_au == last.to.state.samples_per_au,
{
}

/// A header is complete exactly where nothing more is needed, and is then what
/// was read up to there.
pub proof fn headers_end_where_nothing_is_needed<
    'a,
    M,
    P,
    FG: Fn(BitReader<'a>) -> (BitReader<'a>, Result<Guards, BlockError>),
    FM: Fn(&ParserState, BitReader<'a>) -> (
        ParserSubstreamState,
        BitReader<'a>,
        Result<M, BlockError>,
    ),
    FC: Fn(&ParserState, BitReader<'a>, usize) -> (
        ParserSubstreamState,
        BitReader<'a>,
        Result<P, BlockError>,
    ),
>(
    readers: (FG, FM, FC),
    last: HeaderHop<'a, M, P>,
    state: ParserState,
    reader: BitReader<'a>,
    result: Result<BlockHeader<M, P>, BlockError>,
)
    requires
        header_ended(readers, last, state, reader, result),
    ensures
        result is Ok <==> last.outcome == Ok::<HeaderNeed, BlockError>(HeaderNeed::Nothing),
        result matches Ok(header) ==> header == last.to.header && state == last.to.state
            && reader == last.to.reader,
        last.outcome matches Err(error) ==> result == Err::<BlockHeader<M, P>, BlockError>(error)
            && state == last.to.state,
{
}

} // verus!
