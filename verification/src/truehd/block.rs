//! Audio block structures and compression parameters.
//!
//! TrueHD audio compression operates on blocks of 8 to 160 samples per channel.
//! Each block holds an optional restart header, an optional block header and
//! compressed audio data.

use crate::truehd::bits::{
    bit_at, bits_left, bits_value, bits_value_in_range, signed_bits_value, BitError, BitReader,
    HuffmanBook,
};
use crate::truehd::errors::BlockError;
use crate::truehd::samples::{
    bypassed_row, lsbs_within, read_rows, rows_read_forward, sample_row, samples_fit, zero_row,
};
use crate::truehd::state::{Guards, GuardsField, ParserState, ParserSubstreamState};
use crate::truehd::timing::{
    is_timing_block, next_advance, timing_fits, timing_recorded, timing_result, update_timing,
};
use vstd::arithmetic::power2::lemma2_to64;
use vstd::prelude::*;

verus! {

/// Block header with selective parameter updates.
///
/// Only parameters whose guard is set can be updated. `M` is the matrixing of
/// the stream and `P` the parameters of a channel.
#[derive(Debug)]
pub struct BlockHeader<M, P> {
    pub guards: Option<Guards>,
    pub block_size: Option<usize>,
    pub matrixing: Option<M>,
    pub output_shift: [Option<i8>; 16],
    pub quantiser_step_size: [Option<u32>; 16],
    pub channel_params: [Option<P>; 16],
}

/// Where reading of a block header goes on.
#[derive(Debug, Clone, Copy, PartialEq, Eq, Structural)]
pub enum HeaderStage {
    /// At the first bit of the header.
    Guards,
    /// Behind the guards.
    BlockSize,
    /// Behind the matrixing.
    OutputShift,
    /// At the parameters of this channel.
    Channel(usize),
}

/// What the header holds next that has a syntax of its own.
#[derive(Debug, Clone, Copy, PartialEq, Eq, Structural)]
pub enum HeaderNeed {
    /// New guards; reading goes on at [`HeaderStage::BlockSize`].
    Guards,
    /// New matrixing; reading goes on at [`HeaderStage::OutputShift`].
    Matrixing,
    /// New parameters of this channel; reading goes on at the next channel.
    ChannelParams(usize),
    /// The header is complete.
    Nothing,
}

impl HeaderNeed {
    /// Where reading goes on once what is needed has been read, or `None` where
    /// the header is complete.
    pub fn next_stage(self) -> (stage: Option<HeaderStage>)
        requires
            self matches HeaderNeed::ChannelParams(channel) ==> channel < usize::MAX,
        ensures
            stage == match self {
                HeaderNeed::Guards => Some(HeaderStage::BlockSize),
                HeaderNeed::Matrixing => Some(HeaderStage::OutputShift),
                HeaderNeed::ChannelParams(channel) => Some(
                    HeaderStage::Channel((channel + 1) as usize),
                ),
                HeaderNeed::Nothing => None,
            },
    {
        match self {
            HeaderNeed::Guards => Some(HeaderStage::BlockSize),
            HeaderNeed::Matrixing => Some(HeaderStage::OutputShift),
            HeaderNeed::ChannelParams(channel) => Some(HeaderStage::Channel(channel + 1)),
            HeaderNeed::Nothing => None,
        }
    }
}

/// The part of the header, of the substream and of the position that reading
/// a header changes.
#[verifier::ext_equal]
pub struct HeaderModel {
    pub position: int,
    pub block_size: usize,
    pub output_shift: Seq<i8>,
    pub quantiser_step_size: Seq<u32>,
    pub new_block_size: Option<usize>,
    pub new_output_shift: Seq<Option<i8>>,
    pub new_quantiser_step_size: Seq<Option<u32>>,
}

/// The model of a header being read into `substream` at `position`.
pub open spec fn header_model<M, P>(
    substream: ParserSubstreamState,
    header: BlockHeader<M, P>,
    position: int,
) -> HeaderModel {
    HeaderModel {
        position,
        block_size: substream.block_size,
        output_shift: substream.output_shift@,
        quantiser_step_size: substream.quantiser_step_size@,
        new_block_size: header.block_size,
        new_output_shift: header.output_shift@,
        new_quantiser_step_size: header.quantiser_step_size@,
    }
}

/// What does not change while a header is read.
pub struct HeaderContext {
    pub data: Seq<u8>,
    pub guards: Guards,
    pub min_chan: usize,
    pub max_chan: usize,
    pub max_matrix_chan: usize,
    pub max_shift: i8,
    pub samples_per_au: usize,
    pub substream_index: usize,
}

/// The context of a header that `data` holds for `substream`.
pub open spec fn header_context(
    data: Seq<u8>,
    substream: ParserSubstreamState,
    samples_per_au: usize,
    substream_index: usize,
) -> HeaderContext {
    HeaderContext {
        data,
        guards: substream.guards,
        min_chan: substream.min_chan,
        max_chan: substream.max_chan,
        max_matrix_chan: substream.max_matrix_chan,
        max_shift: substream.max_shift,
        samples_per_au,
        substream_index,
    }
}

/// The error of a read past the end of the data.
pub open spec fn end_of_data() -> BlockError {
    BlockError::Bits(BitError::EndOfData)
}

/// Whether the flag at the model's position is there and set.
pub open spec fn flag_set(context: HeaderContext, model: HeaderModel) -> bool {
    bit_at(context.data, model.position) == 1
}

/// The model one bit further on.
pub open spec fn past_flag(model: HeaderModel) -> HeaderModel {
    HeaderModel { position: model.position + 1, ..model }
}

/// Reading from the guards on.
pub open spec fn read_guards(context: HeaderContext, model: HeaderModel) -> (
    HeaderModel,
    Result<HeaderNeed, BlockError>,
) {
    if !context.guards.guards {
        read_block_size(context, model)
    } else if !bits_left(context.data, model.position, 1) {
        (model, Err(end_of_data()))
    } else if flag_set(context, model) {
        (past_flag(model), Ok(HeaderNeed::Guards))
    } else {
        read_block_size(context, past_flag(model))
    }
}

/// Reading from the block size on.
pub open spec fn read_block_size(context: HeaderContext, model: HeaderModel) -> (
    HeaderModel,
    Result<HeaderNeed, BlockError>,
) {
    if !context.guards.block_size {
        read_matrixing(context, model)
    } else if !bits_left(context.data, model.position, 1) {
        (model, Err(end_of_data()))
    } else if !flag_set(context, model) {
        read_matrixing(context, past_flag(model))
    } else if !bits_left(context.data, model.position + 1, 9) {
        (past_flag(model), Err(end_of_data()))
    } else {
        let size = bits_value(context.data, model.position + 1, 9) as usize;
        let past = HeaderModel { position: model.position + 10, ..model };
        if size < 8 || size > 160 {
            (past, Err(BlockError::InvalidBlockSizeRange(size)))
        } else if size > context.samples_per_au {
            (past, Err(BlockError::BlockSizeExceedsAU { max: context.samples_per_au, actual: size }))
        } else {
            read_matrixing(
                context,
                HeaderModel { block_size: size, new_block_size: Some(size), ..past },
            )
        }
    }
}

/// Reading from the matrixing on.
pub open spec fn read_matrixing(context: HeaderContext, model: HeaderModel) -> (
    HeaderModel,
    Result<HeaderNeed, BlockError>,
) {
    if !context.guards.matrixing {
        read_output_shift(context, model)
    } else if !bits_left(context.data, model.position, 1) {
        (model, Err(end_of_data()))
    } else if flag_set(context, model) {
        (past_flag(model), Ok(HeaderNeed::Matrixing))
    } else {
        read_output_shift(context, past_flag(model))
    }
}

/// Reading from the output shifts on.
pub open spec fn read_output_shift(context: HeaderContext, model: HeaderModel) -> (
    HeaderModel,
    Result<HeaderNeed, BlockError>,
) {
    if !context.guards.output_shift {
        read_quantiser_step_size(context, model)
    } else if !bits_left(context.data, model.position, 1) {
        (model, Err(end_of_data()))
    } else if flag_set(context, model) {
        read_shifts(context, past_flag(model), 0)
    } else {
        read_quantiser_step_size(context, past_flag(model))
    }
}

/// Reading of the output shifts from `channel` on, and of what follows them.
pub open spec fn read_shifts(context: HeaderContext, model: HeaderModel, channel: int) -> (
    HeaderModel,
    Result<HeaderNeed, BlockError>,
)
    decreases context.max_matrix_chan + 1 - channel,
{
    if channel > context.max_matrix_chan {
        read_quantiser_step_size(context, model)
    } else if !bits_left(context.data, model.position, 4) {
        (model, Err(end_of_data()))
    } else {
        let shift = signed_bits_value(context.data, model.position, 4) as i8;
        let past = HeaderModel { position: model.position + 4, ..model };
        if shift > context.max_shift {
            (
                past,
                Err(
                    BlockError::OutputShiftTooLarge {
                        index: channel as usize,
                        value: shift,
                        max: context.max_shift,
                        substream: context.substream_index,
                    },
                ),
            )
        } else {
            read_shifts(
                context,
                HeaderModel {
                    output_shift: model.output_shift.update(channel, shift),
                    new_output_shift: model.new_output_shift.update(channel, Some(shift)),
                    ..past
                },
                channel + 1,
            )
        }
    }
}

/// Reading from the quantiser step sizes on.
pub open spec fn read_quantiser_step_size(context: HeaderContext, model: HeaderModel) -> (
    HeaderModel,
    Result<HeaderNeed, BlockError>,
) {
    if !context.guards.quantiser_step_size {
        read_channels(context, model, context.min_chan as int)
    } else if !bits_left(context.data, model.position, 1) {
        (model, Err(end_of_data()))
    } else if flag_set(context, model) {
        read_steps(context, past_flag(model), 0)
    } else {
        read_channels(context, past_flag(model), context.min_chan as int)
    }
}

/// Reading of the quantiser step sizes from `channel` on, and of what follows
/// them.
pub open spec fn read_steps(context: HeaderContext, model: HeaderModel, channel: int) -> (
    HeaderModel,
    Result<HeaderNeed, BlockError>,
)
    decreases context.max_chan + 1 - channel,
{
    if channel > context.max_chan {
        read_channels(context, model, context.min_chan as int)
    } else if !bits_left(context.data, model.position, 4) {
        (model, Err(end_of_data()))
    } else {
        let step = bits_value(context.data, model.position, 4) as u32;
        read_steps(
            context,
            HeaderModel {
                position: model.position + 4,
                quantiser_step_size: model.quantiser_step_size.update(channel, step),
                new_quantiser_step_size: model.new_quantiser_step_size.update(channel, Some(step)),
                ..model
            },
            channel + 1,
        )
    }
}

/// Reading of the channels' flags from `channel` on.
pub open spec fn read_channels(context: HeaderContext, model: HeaderModel, channel: int) -> (
    HeaderModel,
    Result<HeaderNeed, BlockError>,
)
    decreases context.max_chan + 1 - channel,
{
    if channel > context.max_chan {
        (model, Ok(HeaderNeed::Nothing))
    } else if !bits_left(context.data, model.position, 1) {
        (model, Err(end_of_data()))
    } else if flag_set(context, model) {
        (past_flag(model), Ok(HeaderNeed::ChannelParams(channel as usize)))
    } else {
        read_channels(context, past_flag(model), channel + 1)
    }
}

/// Reading from `stage` on, up to the next part with a syntax of its own.
pub open spec fn read_header(context: HeaderContext, model: HeaderModel, stage: HeaderStage) -> (
    HeaderModel,
    Result<HeaderNeed, BlockError>,
) {
    match stage {
        HeaderStage::Guards => read_guards(context, model),
        HeaderStage::BlockSize => read_block_size(context, model),
        HeaderStage::OutputShift => read_output_shift(context, model),
        HeaderStage::Channel(channel) => read_channels(context, model, channel as int),
    }
}

/// The substream states agree in everything that a header does not set.
pub open spec fn same_but_header(left: ParserSubstreamState, right: ParserSubstreamState) -> bool {
    ParserSubstreamState {
        block_size: right.block_size,
        output_shift: right.output_shift,
        quantiser_step_size: right.quantiser_step_size,
        ..left
    } == right
}

/// A header was read from `stage` on, up to the next part with a syntax of its
/// own. Each pair holds what was there before and what is there after.
pub open spec fn stage_read<M, P>(
    states: (ParserState, ParserState),
    headers: (BlockHeader<M, P>, BlockHeader<M, P>),
    data: Seq<u8>,
    positions: (int, int),
    stage: HeaderStage,
    result: Result<HeaderNeed, BlockError>,
) -> bool {
    let (before, after) = states;
    &&& headers.1.same_parts(&headers.0)
    &&& after.same_stream(&before)
    &&& after.advance == before.advance
    &&& if !before.has_substream() {
        &&& result == Err::<HeaderNeed, BlockError>(before.missing_substream())
        &&& positions.1 == positions.0
        &&& headers.1 == headers.0
        &&& after.substream_state@ == before.substream_state@
    } else {
        &&& after.substream_state@ == before.substream_state@.update(
            before.substream_index as int,
            after.substream(),
        )
        &&& same_but_header(before.substream(), after.substream())
        &&& read_header(
            header_context(
                data,
                before.substream(),
                before.samples_per_au,
                before.substream_index,
            ),
            header_model(before.substream(), headers.0, positions.0),
            stage,
        ) == (header_model(after.substream(), headers.1, positions.1), result)
    }
}

impl<M, P> BlockHeader<M, P> {
    /// The header updates nothing.
    pub open spec fn updates_nothing(&self) -> bool {
        &&& self.guards is None
        &&& self.block_size is None
        &&& self.matrixing is None
        &&& forall|channel: int| 0 <= channel < 16 ==> self.output_shift@[channel] is None
        &&& forall|channel: int| 0 <= channel < 16 ==> self.quantiser_step_size@[channel] is None
        &&& forall|channel: int| 0 <= channel < 16 ==> self.channel_params@[channel] is None
    }

    /// A header that updates nothing.
    pub fn new() -> (header: Self)
        ensures
            header.updates_nothing(),
    {
        BlockHeader {
            guards: None,
            block_size: None,
            matrixing: None,
            output_shift: [None; 16],
            quantiser_step_size: [None; 16],
            channel_params: [
                None,
                None,
                None,
                None,
                None,
                None,
                None,
                None,
                None,
                None,
                None,
                None,
                None,
                None,
                None,
                None,
            ],
        }
    }

    /// The parts of the header with a syntax of their own are as in `other`.
    pub open spec fn same_parts(&self, other: &Self) -> bool {
        &&& self.guards == other.guards
        &&& self.matrixing == other.matrixing
        &&& self.channel_params == other.channel_params
    }

    /// Reads the channels' flags from `first` on.
    fn read_channel_flags(
        &self,
        substream: &ParserSubstreamState,
        reader: &mut BitReader,
        first: usize,
        samples_per_au: usize,
        substream_index: usize,
    ) -> (result: Result<HeaderNeed, BlockError>)
        requires
            old(reader).wf(),
            substream.max_chan < 16,
        ensures
            final(reader).wf(),
            final(reader).data() == old(reader).data(),
            read_channels(
                header_context(old(reader).data(), *substream, samples_per_au, substream_index),
                header_model(*substream, *self, old(reader).pos()),
                first as int,
            ) == (header_model(*substream, *self, final(reader).pos()), result),
    {
        let ghost context = header_context(
            reader.data(),
            *substream,
            samples_per_au,
            substream_index,
        );
        let mut channel: usize = first;
        while channel <= substream.max_chan
            invariant
                reader.wf(),
                reader.data() == old(reader).data(),
                substream.max_chan < 16,
                context == header_context(
                    reader.data(),
                    *substream,
                    samples_per_au,
                    substream_index,
                ),
                read_channels(
                    context,
                    header_model(*substream, *self, old(reader).pos()),
                    first as int,
                ) == read_channels(
                    context,
                    header_model(*substream, *self, reader.pos()),
                    channel as int,
                ),
            decreases substream.max_chan + 1 - channel,
        {
            match reader.get() {
                Ok(true) => {
                    return Ok(HeaderNeed::ChannelParams(channel));
                },
                Ok(false) => {},
                Err(error) => {
                    return Err(BlockError::Bits(error));
                },
            }
            channel = channel + 1;
        }
        Ok(HeaderNeed::Nothing)
    }

    /// Reads from the quantiser step sizes on.
    fn read_step_sizes(
        &mut self,
        substream: &mut ParserSubstreamState,
        reader: &mut BitReader,
        samples_per_au: usize,
        substream_index: usize,
    ) -> (result: Result<HeaderNeed, BlockError>)
        requires
            old(reader).wf(),
            old(substream).max_chan < 16,
        ensures
            final(reader).wf(),
            final(reader).data() == old(reader).data(),
            final(self).same_parts(old(self)),
            same_but_header(*old(substream), *final(substream)),
            read_quantiser_step_size(
                header_context(old(reader).data(), *old(substream), samples_per_au, substream_index),
                header_model(*old(substream), *old(self), old(reader).pos()),
            ) == (header_model(*final(substream), *final(self), final(reader).pos()), result),
    {
        let ghost context = header_context(
            reader.data(),
            *substream,
            samples_per_au,
            substream_index,
        );
        if substream.guards.need_change(GuardsField::QuantiserStepSize) {
            match reader.get() {
                Ok(true) => {
                    let last: usize = substream.max_chan;
                    let ghost start = header_model(*substream, *self, reader.pos());
                    let mut channel: usize = 0;
                    while channel <= last
                        invariant
                            last == substream.max_chan,
                            last < 16,
                            reader.wf(),
                            reader.data() == old(reader).data(),
                            self.same_parts(old(self)),
                            same_but_header(*old(substream), *substream),
                            context == header_context(
                                reader.data(),
                                *substream,
                                samples_per_au,
                                substream_index,
                            ),
                            read_steps(context, start, 0) == read_steps(
                                context,
                                header_model(*substream, *self, reader.pos()),
                                channel as int,
                            ),
                            read_quantiser_step_size(
                                context,
                                header_model(*old(substream), *old(self), old(reader).pos()),
                            ) == read_steps(context, start, 0),
                        decreases last + 1 - channel,
                    {
                        let ghost before = header_model(*substream, *self, reader.pos());
                        match reader.get_n(4) {
                            Ok(step) => {
                                self.quantiser_step_size[channel] = Some(step);
                                substream.quantiser_step_size[channel] = step;
                            },
                            Err(error) => {
                                return Err(BlockError::Bits(error));
                            },
                        }
                        proof {
                            let step = bits_value(context.data, before.position, 4) as u32;
                            assert(header_model(*substream, *self, reader.pos()) =~= (HeaderModel {
                                position: before.position + 4,
                                quantiser_step_size: before.quantiser_step_size.update(
                                    channel as int,
                                    step,
                                ),
                                new_quantiser_step_size: before.new_quantiser_step_size.update(
                                    channel as int,
                                    Some(step),
                                ),
                                ..before
                            }));
                        }
                        channel = channel + 1;
                    }
                },
                Ok(false) => {},
                Err(error) => {
                    return Err(BlockError::Bits(error));
                },
            }
        }
        let first: usize = substream.min_chan;
        self.read_channel_flags(substream, reader, first, samples_per_au, substream_index)
    }

    /// Reads from the output shifts on.
    fn read_shift_sizes(
        &mut self,
        substream: &mut ParserSubstreamState,
        reader: &mut BitReader,
        samples_per_au: usize,
        substream_index: usize,
    ) -> (result: Result<HeaderNeed, BlockError>)
        requires
            old(reader).wf(),
            old(substream).max_chan < 16,
            old(substream).max_matrix_chan < 16,
        ensures
            final(reader).wf(),
            final(reader).data() == old(reader).data(),
            final(self).same_parts(old(self)),
            same_but_header(*old(substream), *final(substream)),
            read_output_shift(
                header_context(old(reader).data(), *old(substream), samples_per_au, substream_index),
                header_model(*old(substream), *old(self), old(reader).pos()),
            ) == (header_model(*final(substream), *final(self), final(reader).pos()), result),
    {
        let ghost context = header_context(
            reader.data(),
            *substream,
            samples_per_au,
            substream_index,
        );
        if substream.guards.need_change(GuardsField::OutputShift) {
            match reader.get() {
                Ok(true) => {
                    let last: usize = substream.max_matrix_chan;
                    let max_shift: i8 = substream.max_shift;
                    let ghost start = header_model(*substream, *self, reader.pos());
                    let mut channel: usize = 0;
                    while channel <= last
                        invariant
                            last == substream.max_matrix_chan,
                            max_shift == substream.max_shift,
                            last < 16,
                            substream.max_chan < 16,
                            reader.wf(),
                            reader.data() == old(reader).data(),
                            self.same_parts(old(self)),
                            same_but_header(*old(substream), *substream),
                            context == header_context(
                                reader.data(),
                                *substream,
                                samples_per_au,
                                substream_index,
                            ),
                            read_shifts(context, start, 0) == read_shifts(
                                context,
                                header_model(*substream, *self, reader.pos()),
                                channel as int,
                            ),
                            read_output_shift(
                                context,
                                header_model(*old(substream), *old(self), old(reader).pos()),
                            ) == read_shifts(context, start, 0),
                        decreases last + 1 - channel,
                    {
                        let ghost before = header_model(*substream, *self, reader.pos());
                        match reader.get_s(4) {
                            Ok(shift) => {
                                if shift > max_shift {
                                    return Err(
                                        BlockError::OutputShiftTooLarge {
                                            index: channel,
                                            value: shift,
                                            max: max_shift,
                                            substream: substream_index,
                                        },
                                    );
                                }
                                self.output_shift[channel] = Some(shift);
                                substream.output_shift[channel] = shift;
                            },
                            Err(error) => {
                                return Err(BlockError::Bits(error));
                            },
                        }
                        proof {
                            let shift = signed_bits_value(context.data, before.position, 4) as i8;
                            assert(header_model(*substream, *self, reader.pos()) =~= (HeaderModel {
                                position: before.position + 4,
                                output_shift: before.output_shift.update(channel as int, shift),
                                new_output_shift: before.new_output_shift.update(
                                    channel as int,
                                    Some(shift),
                                ),
                                ..before
                            }));
                        }
                        channel = channel + 1;
                    }
                },
                Ok(false) => {},
                Err(error) => {
                    return Err(BlockError::Bits(error));
                },
            }
        }
        self.read_step_sizes(substream, reader, samples_per_au, substream_index)
    }

    /// Reads from the matrixing on.
    fn read_matrixing_flag(
        &mut self,
        substream: &mut ParserSubstreamState,
        reader: &mut BitReader,
        samples_per_au: usize,
        substream_index: usize,
    ) -> (result: Result<HeaderNeed, BlockError>)
        requires
            old(reader).wf(),
            old(substream).max_chan < 16,
            old(substream).max_matrix_chan < 16,
        ensures
            final(reader).wf(),
            final(reader).data() == old(reader).data(),
            final(self).same_parts(old(self)),
            same_but_header(*old(substream), *final(substream)),
            read_matrixing(
                header_context(old(reader).data(), *old(substream), samples_per_au, substream_index),
                header_model(*old(substream), *old(self), old(reader).pos()),
            ) == (header_model(*final(substream), *final(self), final(reader).pos()), result),
    {
        if substream.guards.need_change(GuardsField::Matrixing) {
            match reader.get() {
                Ok(true) => {
                    return Ok(HeaderNeed::Matrixing);
                },
                Ok(false) => {},
                Err(error) => {
                    return Err(BlockError::Bits(error));
                },
            }
        }
        self.read_shift_sizes(substream, reader, samples_per_au, substream_index)
    }

    /// Reads from the block size on.
    fn read_size(
        &mut self,
        substream: &mut ParserSubstreamState,
        reader: &mut BitReader,
        samples_per_au: usize,
        substream_index: usize,
    ) -> (result: Result<HeaderNeed, BlockError>)
        requires
            old(reader).wf(),
            old(substream).max_chan < 16,
            old(substream).max_matrix_chan < 16,
        ensures
            final(reader).wf(),
            final(reader).data() == old(reader).data(),
            final(self).same_parts(old(self)),
            same_but_header(*old(substream), *final(substream)),
            read_block_size(
                header_context(old(reader).data(), *old(substream), samples_per_au, substream_index),
                header_model(*old(substream), *old(self), old(reader).pos()),
            ) == (header_model(*final(substream), *final(self), final(reader).pos()), result),
    {
        if substream.guards.need_change(GuardsField::BlockSize) {
            match reader.get() {
                Ok(true) => {
                    match reader.get_n(9) {
                        Ok(value) => {
                            let block_size: usize = value as usize;
                            if block_size < 8 || block_size > 160 {
                                return Err(BlockError::InvalidBlockSizeRange(block_size));
                            }
                            if block_size > samples_per_au {
                                return Err(
                                    BlockError::BlockSizeExceedsAU {
                                        max: samples_per_au,
                                        actual: block_size,
                                    },
                                );
                            }
                            self.block_size = Some(block_size);
                            substream.block_size = block_size;
                        },
                        Err(error) => {
                            return Err(BlockError::Bits(error));
                        },
                    }
                },
                Ok(false) => {},
                Err(error) => {
                    return Err(BlockError::Bits(error));
                },
            }
        }
        self.read_matrixing_flag(substream, reader, samples_per_au, substream_index)
    }

    /// Reads from the guards on.
    fn read_guards_flag(
        &mut self,
        substream: &mut ParserSubstreamState,
        reader: &mut BitReader,
        samples_per_au: usize,
        substream_index: usize,
    ) -> (result: Result<HeaderNeed, BlockError>)
        requires
            old(reader).wf(),
            old(substream).max_chan < 16,
            old(substream).max_matrix_chan < 16,
        ensures
            final(reader).wf(),
            final(reader).data() == old(reader).data(),
            final(self).same_parts(old(self)),
            same_but_header(*old(substream), *final(substream)),
            read_guards(
                header_context(old(reader).data(), *old(substream), samples_per_au, substream_index),
                header_model(*old(substream), *old(self), old(reader).pos()),
            ) == (header_model(*final(substream), *final(self), final(reader).pos()), result),
    {
        if substream.guards.need_change(GuardsField::Guards) {
            match reader.get() {
                Ok(true) => {
                    return Ok(HeaderNeed::Guards);
                },
                Ok(false) => {},
                Err(error) => {
                    return Err(BlockError::Bits(error));
                },
            }
        }
        self.read_size(substream, reader, samples_per_au, substream_index)
    }

    /// Reads a block header from `stage` on, up to the next part that has a
    /// syntax of its own, and takes the parameters over into the substream.
    ///
    /// Reading starts with [`HeaderStage::Guards`] and a header that updates
    /// nothing. Whatever is asked for is read by the caller, who then goes on
    /// at the stage behind it.
    pub fn read_stage(
        &mut self,
        state: &mut ParserState,
        reader: &mut BitReader,
        stage: HeaderStage,
    ) -> (result: Result<HeaderNeed, BlockError>)
        requires
            old(reader).wf(),
            old(state).has_substream() ==> old(state).substream().max_chan < 16,
            old(state).has_substream() ==> old(state).substream().max_matrix_chan < 16,
        ensures
            final(reader).wf(),
            final(reader).data() == old(reader).data(),
            stage_read(
                (*old(state), *final(state)),
                (*old(self), *final(self)),
                old(reader).data(),
                (old(reader).pos(), final(reader).pos()),
                stage,
                result,
            ),
    {
        let samples_per_au: usize = state.samples_per_au;
        let index: usize = state.substream_index;
        if index >= state.substream_state.len() {
            return Err(BlockError::InvalidSubstream { index });
        }
        let substream = &mut state.substream_state[index];
        match stage {
            HeaderStage::Guards => self.read_guards_flag(substream, reader, samples_per_au, index),
            HeaderStage::BlockSize => self.read_size(substream, reader, samples_per_au, index),
            HeaderStage::OutputShift => self.read_shift_sizes(
                substream,
                reader,
                samples_per_au,
                index,
            ),
            HeaderStage::Channel(channel) => self.read_channel_flags(
                substream,
                reader,
                channel,
                samples_per_au,
                index,
            ),
        }
    }
}

impl<M, P> BlockHeader<M, P> {
    /// Whether the header sets a block size that is no multiple of eight, which
    /// is unusual and worth a warning.
    pub fn has_odd_block_size(&self) -> (odd: bool)
        ensures
            odd == (self.block_size matches Some(size) && size % 8 != 0),
    {
        match self.block_size {
            Some(size) => size % 8 != 0,
            None => false,
        }
    }
}

impl<M, P> Default for BlockHeader<M, P> {
    fn default() -> (header: Self)
        ensures
            header.updates_nothing(),
    {
        BlockHeader::new()
    }
}

/// Most bits that the data of a protected block may declare.
pub const MAX_BLOCK_DATA_BITS: u16 = 16000;

/// Complete audio block: decoding parameters and decompressed data.
///
/// `R` is the restart header of the stream, `M` its matrixing and `P` the
/// parameters of a channel.
#[derive(Debug)]
pub struct Block<R, M, P> {
    pub restart_header: Option<R>,
    pub block_header: Option<BlockHeader<M, P>>,
    pub block_data_bits: Option<u16>,
    /// Boxed so that moving a block moves two pointers and not 20 KB.
    pub bypassed_lsb: Box<[[i32; 16]; 160]>,
    pub block_data: Box<[[i32; 16]; 160]>,
    pub block_header_crc: u8,
}

/// Which headers a block starts with.
#[derive(Debug, Clone, Copy, PartialEq, Eq, Structural)]
pub struct BlockFlags {
    pub block_header: bool,
    pub restart_header: bool,
}

/// The rows of a block array.
pub open spec fn rows(array: [[i32; 16]; 160]) -> Seq<Seq<i32>> {
    array@.map_values(|row: [i32; 16]| row@)
}

/// A block array of zeros.
pub open spec fn zero_rows() -> Seq<Seq<i32>> {
    Seq::new(160, |row: int| zero_row())
}

/// A zeroed block array on the heap.
fn zeroed_block_array() -> (array: Box<[[i32; 16]; 160]>)
    ensures
        rows(*array) == zero_rows(),
{
    let array: Box<[[i32; 16]; 160]> = Box::new([[0i32; 16]; 160]);
    assert forall|row: int| 0 <= row < 160 implies rows(*array)[row] == zero_row() by {
        assert(array@[row]@ =~= zero_row());
    }
    assert(rows(*array) =~= zero_rows());
    array
}

/// The first channel from `channel` on with more Huffman LSBs than allowed.
pub open spec fn first_excess(substream: ParserSubstreamState, channel: int) -> Option<int>
    decreases substream.max_chan + 1 - channel,
{
    if channel > substream.max_chan {
        None
    } else if substream.huff_lsbs@[channel] > substream.max_lsbs {
        Some(channel)
    } else {
        first_excess(substream, channel + 1)
    }
}

/// The length that a block declares for its data, and the position behind it.
pub open spec fn read_length(substream: ParserSubstreamState, data: Seq<u8>, position: int) -> Result<
    (Option<u16>, int),
    BlockError,
> {
    if !substream.error_protect {
        Ok((None, position))
    } else if !bits_left(data, position, 16) {
        Err(end_of_data())
    } else {
        let bits = bits_value(data, position, 16) as u16;
        if bits > MAX_BLOCK_DATA_BITS {
            Err(BlockError::BlockDataBitsTooLarge(bits))
        } else {
            Ok((Some(bits), position + 16))
        }
    }
}

/// What the data of a block holds.
#[verifier::ext_equal]
pub struct BodyModel {
    pub bypassed_lsb: Seq<Seq<i32>>,
    pub block_data: Seq<Seq<i32>>,
    pub crc: u8,
    pub end: int,
}

/// The data of a block at `position` whose declared length is `declared`.
pub open spec fn read_body(
    substream: ParserSubstreamState,
    books: Seq<HuffmanBook>,
    data: Seq<u8>,
    position: int,
    declared: Option<u16>,
) -> Result<BodyModel, BlockError> {
    match first_excess(substream, substream.min_chan as int) {
        Some(channel) => Err(
            BlockError::HuffLsbsTooLarge {
                channel: channel as usize,
                actual: substream.huff_lsbs@[channel] as usize,
                max: substream.max_lsbs as usize,
            },
        ),
        None => match read_rows(
            substream,
            books,
            data,
            position,
            0,
            zero_rows(),
            zero_rows(),
        ) {
            Err(error) => Err(error),
            Ok((bypassed_lsb, block_data, end)) => if declared is Some && declared->0 != end
                - position {
                Err(
                    BlockError::BlockDataBitCountMismatch {
                        expected: declared->0,
                        actual: (end - position) as u64,
                    },
                )
            } else if !substream.error_protect {
                Ok(BodyModel { bypassed_lsb, block_data, crc: 0, end })
            } else if !bits_left(data, end, 8) {
                Err(end_of_data())
            } else {
                Ok(
                    BodyModel {
                        bypassed_lsb,
                        block_data,
                        crc: bits_value(data, end, 8) as u8,
                        end: end + 8,
                    },
                )
            },
        },
    }
}

/// No channel exceeds the limit exactly when every channel is within it.
pub proof fn lemma_no_excess(substream: ParserSubstreamState, channel: int)
    ensures
        first_excess(substream, channel) is None ==> forall|other: int|
            channel <= other <= substream.max_chan ==> #[trigger] substream.huff_lsbs@[other]
                <= substream.max_lsbs,
    decreases substream.max_chan + 1 - channel,
{
    if channel <= substream.max_chan && substream.huff_lsbs@[channel] <= substream.max_lsbs {
        lemma_no_excess(substream, channel + 1);
    }
}

/// Checks the Huffman LSBs of every channel.
fn check_lsbs(substream: &ParserSubstreamState) -> (result: Result<(), BlockError>)
    requires
        substream.max_chan < 16,
    ensures
        match first_excess(*substream, substream.min_chan as int) {
            Some(channel) => result == Err::<(), BlockError>(
                BlockError::HuffLsbsTooLarge {
                    channel: channel as usize,
                    actual: substream.huff_lsbs@[channel] as usize,
                    max: substream.max_lsbs as usize,
                },
            ),
            None => result is Ok && lsbs_within(*substream),
        },
{
    let mut channel: usize = substream.min_chan;
    while channel <= substream.max_chan
        invariant
            substream.max_chan < 16,
            substream.min_chan <= channel,
            first_excess(*substream, substream.min_chan as int) == first_excess(
                *substream,
                channel as int,
            ),
        decreases substream.max_chan + 1 - channel,
    {
        if substream.huff_lsbs[channel] > substream.max_lsbs {
            return Err(
                BlockError::HuffLsbsTooLarge {
                    channel,
                    actual: substream.huff_lsbs[channel] as usize,
                    max: substream.max_lsbs as usize,
                },
            );
        }
        channel = channel + 1;
    }
    proof {
        lemma_no_excess(*substream, substream.min_chan as int);
    }
    Ok(())
}

/// The sizes that what follows the headers of a block is read within.
pub open spec fn body_fits(state: ParserState, books: Seq<HuffmanBook>) -> bool {
    state.has_substream() ==> {
        &&& samples_fit(state.substream(), books)
        &&& is_timing_block(&state) ==> timing_fits(&state)
    }
}

/// What reading what follows the headers of a block, from `position` to `end`,
/// does to the parser and returns.
pub open spec fn block_completed<R, M, P>(
    before: ParserState,
    after: ParserState,
    data: Seq<u8>,
    position: int,
    end: int,
    books: Seq<HuffmanBook>,
    restart_header: Option<R>,
    block_header: Option<BlockHeader<M, P>>,
    result: Result<Block<R, M, P>, BlockError>,
) -> bool {
    if !before.has_substream() {
        &&& result matches Err(error) && error == before.missing_substream()
        &&& after == before
    } else {
        match read_length(before.substream(), data, position) {
            Err(reason) => {
                &&& result matches Err(error) && error == reason
                &&& after == before
            },
            Ok((declared, from)) => {
                &&& !is_timing_block(&before) ==> after == before
                &&& is_timing_block(&before) ==> {
                    &&& after.same_stream(&before)
                    &&& after.advance == next_advance(&before)
                    &&& timing_recorded(&before, after.substream())
                    &&& after.substream_state@ == before.substream_state@.update(
                        before.substream_index as int,
                        after.substream(),
                    )
                }
                &&& if is_timing_block(&before) && timing_result(&before) is Err {
                    result matches Err(error) && error == timing_result(&before)->Err_0
                } else {
                    match read_body(after.substream(), books, data, from, declared) {
                        Err(reason) => result matches Err(error) && error == reason,
                        Ok(body) => {
                            &&& result matches Ok(block)
                            &&& block.restart_header == restart_header
                            &&& block.block_header == block_header
                            &&& block.block_data_bits == declared
                            &&& rows(*block.bypassed_lsb) == body.bypassed_lsb
                            &&& rows(*block.block_data) == body.block_data
                            &&& block.block_header_crc == body.crc
                            &&& end == body.end
                        },
                    }
                }
            },
        }
    }
}

/// What comes of a block header that was read, with a restart header before it
/// or without one, and left the parser at `middle` and the reader at `from`.
pub open spec fn header_taken<R, M, P>(
    middle: ParserState,
    after: ParserState,
    data: Seq<u8>,
    from: int,
    end: int,
    books: Seq<HuffmanBook>,
    restart: Option<R>,
    header: Result<BlockHeader<M, P>, BlockError>,
    result: Result<Block<R, M, P>, BlockError>,
) -> bool {
    match header {
        Err(reason) => {
            &&& result matches Err(error) && error == reason
            &&& after == middle
        },
        Ok(found) => block_completed(
            middle,
            after,
            data,
            from,
            end,
            books,
            restart,
            Some(found),
            result,
        ),
    }
}

/// The flags at `position`, where they are there.
pub open spec fn flags_at(data: Seq<u8>, position: int) -> Option<BlockFlags> {
    if !bits_left(data, position, 1) {
        None
    } else if bit_at(data, position) != 1 {
        Some(BlockFlags { block_header: false, restart_header: false })
    } else if !bits_left(data, position, 2) {
        None
    } else {
        Some(
            BlockFlags { block_header: true, restart_header: bit_at(data, position + 1) == 1 },
        )
    }
}

impl<R, M, P> Block<R, M, P> {
    /// The block has no headers, and its data is zero.
    pub open spec fn is_empty(&self) -> bool {
        &&& self.restart_header is None
        &&& self.block_header is None
        &&& self.block_data_bits is None
        &&& rows(*self.bypassed_lsb) == zero_rows()
        &&& rows(*self.block_data) == zero_rows()
        &&& self.block_header_crc == 0
    }

    /// A block without headers whose data is zero.
    pub fn new() -> (block: Self)
        ensures
            block.is_empty(),
    {
        Block {
            restart_header: None,
            block_header: None,
            block_data_bits: None,
            bypassed_lsb: zeroed_block_array(),
            block_data: zeroed_block_array(),
            block_header_crc: 0,
        }
    }

    /// Reads which headers follow.
    pub fn read_flags(reader: &mut BitReader) -> (result: Result<BlockFlags, BlockError>)
        requires
            old(reader).wf(),
        ensures
            final(reader).wf(),
            final(reader).data() == old(reader).data(),
            match flags_at(old(reader).data(), old(reader).pos()) {
                Some(flags) => {
                    &&& result == Ok::<BlockFlags, BlockError>(flags)
                    &&& final(reader).pos() == old(reader).pos() + if flags.block_header {
                        2int
                    } else {
                        1int
                    }
                },
                None => result == Err::<BlockFlags, BlockError>(end_of_data()),
            },
    {
        let block_header: bool = match reader.get() {
            Ok(flag) => flag,
            Err(error) => {
                return Err(BlockError::Bits(error));
            },
        };
        if !block_header {
            return Ok(BlockFlags { block_header, restart_header: false });
        }
        match reader.get() {
            Ok(restart_header) => Ok(BlockFlags { block_header, restart_header }),
            Err(error) => Err(BlockError::Bits(error)),
        }
    }

    /// Reads the rows of a block into its arrays.
    fn read_data(
        &mut self,
        substream: &ParserSubstreamState,
        books: &Vec<HuffmanBook>,
        reader: &mut BitReader,
    ) -> (result: Result<(), BlockError>)
        requires
            old(reader).wf(),
            samples_fit(*substream, books@),
            lsbs_within(*substream),
            rows(*old(self).bypassed_lsb) == zero_rows(),
            rows(*old(self).block_data) == zero_rows(),
        ensures
            final(reader).wf(),
            final(reader).data() == old(reader).data(),
            final(self).restart_header == old(self).restart_header,
            final(self).block_header == old(self).block_header,
            final(self).block_data_bits == old(self).block_data_bits,
            final(self).block_header_crc == old(self).block_header_crc,
            match read_rows(
                *substream,
                books@,
                old(reader).data(),
                old(reader).pos(),
                0,
                zero_rows(),
                zero_rows(),
            ) {
                Ok((lsbs, samples, end)) => {
                    &&& result is Ok
                    &&& rows(*final(self).bypassed_lsb) == lsbs
                    &&& rows(*final(self).block_data) == samples
                    &&& final(reader).pos() == end
                },
                Err(error) => result == Err::<(), BlockError>(error),
            },
    {
        let mut row: usize = 0;
        while row < substream.block_size
            invariant
                row <= substream.block_size,
                reader.wf(),
                reader.data() == old(reader).data(),
                samples_fit(*substream, books@),
                lsbs_within(*substream),
                self.restart_header == old(self).restart_header,
                self.block_header == old(self).block_header,
                self.block_data_bits == old(self).block_data_bits,
                self.block_header_crc == old(self).block_header_crc,
                read_rows(
                    *substream,
                    books@,
                    reader.data(),
                    old(reader).pos(),
                    0,
                    zero_rows(),
                    zero_rows(),
                ) == read_rows(
                    *substream,
                    books@,
                    reader.data(),
                    reader.pos(),
                    row as int,
                    rows(*self.bypassed_lsb),
                    rows(*self.block_data),
                ),
            decreases substream.block_size - row,
        {
            let ghost lsbs_before = rows(*self.bypassed_lsb);
            let ghost data_before = rows(*self.block_data);
            match bypassed_row(substream, reader) {
                Ok(lsbs) => {
                    self.bypassed_lsb[row] = lsbs;
                    assert(rows(*self.bypassed_lsb) =~= lsbs_before.update(row as int, lsbs@));
                },
                Err(error) => {
                    return Err(error);
                },
            }
            match sample_row(substream, books, reader) {
                Ok(samples) => {
                    self.block_data[row] = samples;
                    assert(rows(*self.block_data) =~= data_before.update(row as int, samples@));
                },
                Err(error) => {
                    return Err(error);
                },
            }
            row = row + 1;
        }
        Ok(())
    }

    /// Reads what follows the headers of a block.
    ///
    /// The headers have been read and taken over into `state`. On an error the
    /// reader stops somewhere in the block.
    pub fn read_after_headers(
        state: &mut ParserState,
        reader: &mut BitReader,
        books: &Vec<HuffmanBook>,
        restart_header: Option<R>,
        block_header: Option<BlockHeader<M, P>>,
    ) -> (result: Result<Self, BlockError>)
        requires
            old(reader).wf(),
            body_fits(*old(state), books@),
        ensures
            final(reader).wf(),
            final(reader).data() == old(reader).data(),
            block_completed(
                *old(state),
                *final(state),
                old(reader).data(),
                old(reader).pos(),
                final(reader).pos(),
                books@,
                restart_header,
                block_header,
                result,
            ),
    {
        let mut block: Self = Block {
            restart_header,
            block_header,
            block_data_bits: None,
            bypassed_lsb: zeroed_block_array(),
            block_data: zeroed_block_array(),
            block_header_crc: 0,
        };
        let index: usize = state.substream_index;
        if index >= state.substream_state.len() {
            return Err(BlockError::InvalidSubstream { index });
        }
        let error_protect: bool = state.substream_state[index].error_protect;
        if error_protect {
            proof {
                lemma2_to64();
                bits_value_in_range(reader.data(), reader.pos(), 16);
            }
            match reader.get_n(16) {
                Ok(value) => {
                    let bits: u16 = value as u16;
                    if bits > MAX_BLOCK_DATA_BITS {
                        return Err(BlockError::BlockDataBitsTooLarge(bits));
                    }
                    block.block_data_bits = Some(bits);
                },
                Err(error) => {
                    return Err(BlockError::Bits(error));
                },
            }
        }
        if !state.has_parsed_substream && state.substream_state[index].block_index == 0 {
            if let Err(error) = update_timing(state) {
                return Err(error);
            }
        }
        let substream: ParserSubstreamState = state.substream_state[index];
        proof {
            reader.wf_bounds();
            rows_read_forward(
                substream,
                books@,
                reader.data(),
                reader.pos(),
                0,
                zero_rows(),
                zero_rows(),
            );
        }
        let start: u64 = reader.position();
        if let Err(error) = check_lsbs(&substream) {
            return Err(error);
        }
        if let Err(error) = block.read_data(&substream, books, reader) {
            return Err(error);
        }
        if let Some(declared) = block.block_data_bits {
            proof {
                reader.wf_bounds();
            }
            let actual: u64 = reader.position() - start;
            if actual != declared as u64 {
                return Err(BlockError::BlockDataBitCountMismatch { expected: declared, actual });
            }
        }
        if error_protect {
            proof {
                lemma2_to64();
                bits_value_in_range(reader.data(), reader.pos(), 8);
            }
            match reader.get_n(8) {
                Ok(crc) => {
                    block.block_header_crc = crc as u8;
                },
                Err(error) => {
                    return Err(BlockError::Bits(error));
                },
            }
        }
        Ok(block)
    }
}

impl<R, M, P> Block<R, M, P> {
    /// Reads a whole block: the flags, the headers that they announce, and what
    /// follows. `read_restart` and `read_header` read the headers and take them
    /// over into `state`.
    ///
    /// A restart header never comes without a block header. On an error the
    /// reader stops somewhere in the block.
    pub fn read<'a, FR, FH>(
        state: &mut ParserState,
        reader: &mut BitReader<'a>,
        books: &Vec<HuffmanBook>,
        read_restart: FR,
        read_header: FH,
    ) -> (result: Result<Self, BlockError>) where
        FR: FnOnce(&mut ParserState, &mut BitReader<'a>) -> Result<R, BlockError>,
        FH: FnOnce(&mut ParserState, &mut BitReader<'a>) -> Result<BlockHeader<M, P>, BlockError>,

        requires
            old(reader).wf(),
            // The readers of the headers can be called and keep to the data.
            forall|parser: &mut ParserState, bits: &mut BitReader<'a>|
                bits.wf() ==> #[trigger] read_restart.requires((parser, bits)),
            forall|
                parser: &mut ParserState,
                bits: &mut BitReader<'a>,
                header: Result<R, BlockError>,
            |
                bits.wf() && #[trigger] read_restart.ensures((parser, bits), header) ==> {
                    &&& final(bits).wf()
                    &&& final(bits).data() == bits.data()
                },
            forall|parser: &mut ParserState, bits: &mut BitReader<'a>|
                bits.wf() ==> #[trigger] read_header.requires((parser, bits)),
            forall|
                parser: &mut ParserState,
                bits: &mut BitReader<'a>,
                header: Result<BlockHeader<M, P>, BlockError>,
            |
                bits.wf() && #[trigger] read_header.ensures((parser, bits), header) ==> {
                    &&& final(bits).wf()
                    &&& final(bits).data() == bits.data()
                },
            // What the headers leave, or their absence, can be gone on with.
            forall|
                parser: &mut ParserState,
                bits: &mut BitReader<'a>,
                header: BlockHeader<M, P>,
            |
                #[trigger] read_header.ensures((parser, bits), Ok(header)) ==> body_fits(
                    *final(parser),
                    books@,
                ),
            flags_at(old(reader).data(), old(reader).pos()) matches Some(flags)
                ==> flags.block_header || body_fits(*old(state), books@),
        ensures
            final(reader).wf(),
            final(reader).data() == old(reader).data(),
            result matches Ok(block) ==> {
                let first = bit_at(old(reader).data(), old(reader).pos()) == 1;
                let second = bit_at(old(reader).data(), old(reader).pos() + 1) == 1;
                &&& block.block_header is Some <==> first
                &&& block.restart_header is Some <==> first && second
            },
            match flags_at(old(reader).data(), old(reader).pos()) {
                None => {
                    &&& result matches Err(error) && error == end_of_data()
                    &&& *final(state) == *old(state)
                },
                Some(flags) => if !flags.block_header {
                    block_completed(
                        *old(state),
                        *final(state),
                        old(reader).data(),
                        old(reader).pos() + 1,
                        final(reader).pos(),
                        books@,
                        None,
                        None,
                        result,
                    )
                } else if !flags.restart_header {
                    exists|
                        parser: &mut ParserState,
                        bits: &mut BitReader<'a>,
                        header: Result<BlockHeader<M, P>, BlockError>,
                    |
                        {
                            &&& #[trigger] read_header.ensures((parser, bits), header)
                            &&& *parser == *old(state)
                            &&& bits.data() == old(reader).data()
                            &&& bits.pos() == old(reader).pos() + 2
                            &&& header_taken(
                                *final(parser),
                                *final(state),
                                old(reader).data(),
                                final(bits).pos(),
                                final(reader).pos(),
                                books@,
                                None,
                                header,
                                result,
                            )
                        }
                } else {
                    exists|
                        parser: &mut ParserState,
                        bits: &mut BitReader<'a>,
                        restart: Result<R, BlockError>,
                    |
                        {
                            &&& #[trigger] read_restart.ensures((parser, bits), restart)
                            &&& *parser == *old(state)
                            &&& bits.data() == old(reader).data()
                            &&& bits.pos() == old(reader).pos() + 2
                            &&& match restart {
                                Err(reason) => {
                                    &&& result matches Err(error) && error == reason
                                    &&& *final(state) == *final(parser)
                                },
                                Ok(found) => exists|
                                    parser_then: &mut ParserState,
                                    bits_then: &mut BitReader<'a>,
                                    header: Result<BlockHeader<M, P>, BlockError>,
                                |
                                    {
                                        &&& #[trigger] read_header.ensures(
                                            (parser_then, bits_then),
                                            header,
                                        )
                                        &&& *parser_then == *final(parser)
                                        &&& *bits_then == *final(bits)
                                        &&& header_taken(
                                            *final(parser_then),
                                            *final(state),
                                            old(reader).data(),
                                            final(bits_then).pos(),
                                            final(reader).pos(),
                                            books@,
                                            Some(found),
                                            header,
                                            result,
                                        )
                                    },
                            }
                        }
                },
            },
    {
        let flags: BlockFlags = match Self::read_flags(reader) {
            Ok(flags) => flags,
            Err(error) => {
                return Err(error);
            },
        };
        if !flags.block_header {
            return Self::read_after_headers(state, reader, books, None, None);
        }
        let mut restart: Option<R> = None;
        if flags.restart_header {
            match read_restart(state, reader) {
                Ok(found) => {
                    restart = Some(found);
                },
                Err(error) => {
                    return Err(error);
                },
            }
        }
        match read_header(state, reader) {
            Ok(header) => Self::read_after_headers(state, reader, books, restart, Some(header)),
            Err(error) => Err(error),
        }
    }
}

impl<R, M, P> Default for Block<R, M, P> {
    fn default() -> (block: Self)
        ensures
            block.is_empty(),
    {
        Block::new()
    }
}

} // verus!
