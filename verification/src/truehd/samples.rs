//! Decoding of the compressed samples of a block.

use crate::truehd::bits::{
    bits_left, bits_value, bits_value_in_range, huffman_entry, BitError, BitReader, HuffmanBook,
};
use crate::truehd::errors::BlockError;
use crate::truehd::state::ParserSubstreamState;
use vstd::arithmetic::power2::{
    lemma2_to64, lemma_pow2_pos, lemma_pow2_strictly_increases, lemma_pow2_unfold, pow2,
};
use vstd::prelude::*;

verus! {

/// Restart sync word of streams whose bypassed LSBs have a width of their own
/// and whose samples are not checked one by one.
pub const WIDE_SYNC_WORD: u16 = 0x31EC;

/// Most bits that one checked sample may take.
pub const MAX_SAMPLE_BITS: u64 = 29;

/// The 32-bit two's-complement number that `value` wraps to.
pub open spec fn wrap_i32(value: int) -> int {
    (value + 0x8000_0000) % 0x1_0000_0000 - 0x8000_0000
}

/// Width of the bypassed LSBs of primitive matrix `matrix`.
pub open spec fn bypass_bits(substream: ParserSubstreamState, matrix: int) -> int {
    if substream.restart_sync_word == WIDE_SYNC_WORD {
        substream.lsb_bypass_bit_count@[matrix] as int
    } else if substream.lsb_bypass_used@[matrix] {
        1
    } else {
        0
    }
}

/// Reading of the bypassed LSBs from `matrix` on into `row`, which gives the
/// row and the position behind it.
pub open spec fn read_bypassed(
    substream: ParserSubstreamState,
    data: Seq<u8>,
    position: int,
    matrix: int,
    row: Seq<i32>,
) -> Result<(Seq<i32>, int), BlockError>
    decreases substream.primitive_matrices - matrix,
{
    if matrix >= substream.primitive_matrices {
        Ok((row, position))
    } else {
        let width = bypass_bits(substream, matrix);
        if width > 8 {
            Err(BlockError::Bits(BitError::TooWide))
        } else if !bits_left(data, position, width) {
            Err(BlockError::Bits(BitError::EndOfData))
        } else {
            read_bypassed(
                substream,
                data,
                position + width,
                matrix + 1,
                row.update(matrix, bits_value(data, position, width as nat) as i32),
            )
        }
    }
}

/// Bits of a sample of `channel` that are coded plainly.
pub open spec fn plain_bits(substream: ParserSubstreamState, channel: int) -> int {
    substream.huff_lsbs@[channel] - substream.quantiser_step_size@[channel]
}

/// What a sample's plain bits are counted from.
pub open spec fn sample_bias(huff_type: int, plain: int) -> int {
    let shift = if huff_type == 0 {
        plain - 1
    } else {
        plain + 2 - huff_type
    };
    if shift < 0 {
        0
    } else {
        pow2(shift as nat) as int
    }
}

/// The sample whose Huffman code stands for `code` and whose plain bits spell
/// `plain_value`.
pub open spec fn sample_value(
    substream: ParserSubstreamState,
    channel: int,
    code: int,
    plain_value: int,
) -> int {
    let plain = plain_bits(substream, channel);
    let bias = sample_bias(substream.huff_type@[channel] as int, plain);
    wrap_i32(
        (plain_value + code * pow2(plain as nat) - bias + substream.huff_offset@[channel]) * pow2(
            substream.quantiser_step_size@[channel] as nat,
        ),
    )
}

/// The Huffman code at `position`, as its value and its length; a channel
/// without Huffman coding has none.
pub open spec fn read_code(
    substream: ParserSubstreamState,
    books: Seq<HuffmanBook>,
    data: Seq<u8>,
    position: int,
    channel: int,
) -> Option<(int, int)> {
    let huff_type = substream.huff_type@[channel] as int;
    if huff_type == 0 {
        Some((0, 0))
    } else {
        match huffman_entry(books[huff_type - 1].entries@, data, position, 0) {
            Some(entry) => Some((entry.value as int, entry.length as int)),
            None => None,
        }
    }
}

/// The sample of `channel` at `position`, and the position behind it.
pub open spec fn read_sample(
    substream: ParserSubstreamState,
    books: Seq<HuffmanBook>,
    data: Seq<u8>,
    position: int,
    channel: int,
) -> Result<(i32, int), BlockError> {
    let plain = plain_bits(substream, channel);
    if plain < 0 {
        Err(BlockError::QuantiserStepTooLarge)
    } else {
        match read_code(substream, books, data, position, channel) {
            None => Err(BlockError::Bits(BitError::UnknownCode)),
            Some((code, length)) => {
                let behind = position + length;
                let sample = sample_value(
                    substream,
                    channel,
                    code,
                    bits_value(data, behind, plain as nat),
                );
                if !bits_left(data, behind, plain) {
                    Err(BlockError::Bits(BitError::EndOfData))
                } else if substream.restart_sync_word == WIDE_SYNC_WORD {
                    Ok((sample as i32, behind + plain))
                } else if sample >= 0x80_0000 {
                    Err(BlockError::HuffmanPositiveSaturation)
                } else if sample < -0x80_0000 {
                    Err(BlockError::HuffmanNegativeSaturation)
                } else if length + plain > MAX_SAMPLE_BITS {
                    Err(BlockError::HuffmanSampleTooLong)
                } else {
                    Ok((sample as i32, behind + plain))
                }
            },
        }
    }
}

/// Reading of one sample per channel from `channel` on into `row`, which gives
/// the row and the position behind it.
pub open spec fn read_samples(
    substream: ParserSubstreamState,
    books: Seq<HuffmanBook>,
    data: Seq<u8>,
    position: int,
    channel: int,
    row: Seq<i32>,
) -> Result<(Seq<i32>, int), BlockError>
    decreases substream.max_chan + 1 - channel,
{
    if channel > substream.max_chan {
        Ok((row, position))
    } else {
        match read_sample(substream, books, data, position, channel) {
            Err(error) => Err(error),
            Ok((sample, behind)) => read_samples(
                substream,
                books,
                data,
                behind,
                channel + 1,
                row.update(channel, sample),
            ),
        }
    }
}

/// A row of sixteen zeros.
pub open spec fn zero_row() -> Seq<i32> {
    Seq::new(16, |channel: int| 0i32)
}

/// The bypassed LSBs and the samples at `position`, and the position behind
/// them.
pub open spec fn read_row(
    substream: ParserSubstreamState,
    books: Seq<HuffmanBook>,
    data: Seq<u8>,
    position: int,
) -> Result<(Seq<i32>, Seq<i32>, int), BlockError> {
    match read_bypassed(substream, data, position, 0, zero_row()) {
        Err(error) => Err(error),
        Ok((lsbs, behind)) => match read_samples(
            substream,
            books,
            data,
            behind,
            substream.min_chan as int,
            zero_row(),
        ) {
            Err(error) => Err(error),
            Ok((samples, end)) => Ok((lsbs, samples, end)),
        },
    }
}

/// Reading of the rows from `row` to the end of the block, which gives the
/// rows of bypassed LSBs, the rows of samples and the position behind them.
pub open spec fn read_rows(
    substream: ParserSubstreamState,
    books: Seq<HuffmanBook>,
    data: Seq<u8>,
    position: int,
    row: int,
    lsbs: Seq<Seq<i32>>,
    samples: Seq<Seq<i32>>,
) -> Result<(Seq<Seq<i32>>, Seq<Seq<i32>>, int), BlockError>
    decreases substream.block_size - row,
{
    if row >= substream.block_size {
        Ok((lsbs, samples, position))
    } else {
        match read_row(substream, books, data, position) {
            Err(error) => Err(error),
            Ok((row_lsbs, row_samples, end)) => read_rows(
                substream,
                books,
                data,
                end,
                row + 1,
                lsbs.update(row, row_lsbs),
                samples.update(row, row_samples),
            ),
        }
    }
}

/// Reading bypassed LSBs never goes back.
pub proof fn bypassed_read_forward(
    substream: ParserSubstreamState,
    data: Seq<u8>,
    position: int,
    matrix: int,
    row: Seq<i32>,
)
    requires
        0 <= matrix,
    ensures
        read_bypassed(substream, data, position, matrix, row) matches Ok((_, end)) ==> position
            <= end,
    decreases substream.primitive_matrices - matrix,
{
    let width = bypass_bits(substream, matrix);
    if matrix < substream.primitive_matrices && width <= 8 && bits_left(data, position, width) {
        bypassed_read_forward(
            substream,
            data,
            position + width,
            matrix + 1,
            row.update(matrix, bits_value(data, position, width as nat) as i32),
        );
    }
}

/// Reading the samples of a row never goes back.
pub proof fn samples_read_forward(
    substream: ParserSubstreamState,
    books: Seq<HuffmanBook>,
    data: Seq<u8>,
    position: int,
    channel: int,
    row: Seq<i32>,
)
    ensures
        read_samples(substream, books, data, position, channel, row) matches Ok((_, end))
            ==> position <= end,
    decreases substream.max_chan + 1 - channel,
{
    if channel <= substream.max_chan {
        if let Ok((sample, behind)) = read_sample(substream, books, data, position, channel) {
            samples_read_forward(
                substream,
                books,
                data,
                behind,
                channel + 1,
                row.update(channel, sample),
            );
        }
    }
}

/// Reading the rows of a block never goes back.
pub proof fn rows_read_forward(
    substream: ParserSubstreamState,
    books: Seq<HuffmanBook>,
    data: Seq<u8>,
    position: int,
    row: int,
    lsbs: Seq<Seq<i32>>,
    samples: Seq<Seq<i32>>,
)
    ensures
        read_rows(substream, books, data, position, row, lsbs, samples) matches Ok((_, _, end))
            ==> position <= end,
    decreases substream.block_size - row,
{
    if row < substream.block_size {
        if let Ok((row_lsbs, row_samples, end)) = read_row(substream, books, data, position) {
            bypassed_read_forward(substream, data, position, 0, zero_row());
            if let Ok((_, behind)) = read_bypassed(substream, data, position, 0, zero_row()) {
                samples_read_forward(
                    substream,
                    books,
                    data,
                    behind,
                    substream.min_chan as int,
                    zero_row(),
                );
            }
            rows_read_forward(
                substream,
                books,
                data,
                end,
                row + 1,
                lsbs.update(row, row_lsbs),
                samples.update(row, row_samples),
            );
        }
    }
}

/// The shifts that put a sample of `channel` together stay within 32 bits.
pub open spec fn shifts_fit(substream: ParserSubstreamState, channel: int) -> bool {
    plain_bits(substream, channel) >= 0 ==> {
        &&& substream.quantiser_step_size@[channel] < 32
        &&& plain_bits(substream, channel) < 32
        &&& substream.huff_type@[channel] == 1 ==> plain_bits(substream, channel) < 31
    }
}

/// Limits of the arrays and shifts that decoding goes through.
pub open spec fn samples_fit(substream: ParserSubstreamState, books: Seq<HuffmanBook>) -> bool {
    &&& substream.primitive_matrices <= 16
    &&& substream.max_chan < 16
    &&& substream.block_size <= 160
    &&& forall|channel: int|
        substream.min_chan <= channel <= substream.max_chan
            ==> #[trigger] substream.huff_type@[channel] <= books.len()
    &&& forall|channel: int|
        substream.min_chan <= channel <= substream.max_chan
            ==> #[trigger] substream.huff_lsbs@[channel] <= substream.max_lsbs ==> shifts_fit(
            substream,
            channel,
        )
}

/// Every channel's Huffman LSBs are within the limit.
pub open spec fn lsbs_within(substream: ParserSubstreamState) -> bool {
    forall|channel: int|
        substream.min_chan <= channel <= substream.max_chan
            ==> #[trigger] substream.huff_lsbs@[channel] <= substream.max_lsbs
}

/// The power of two with this exponent.
fn power(exponent: u32) -> (value: i128)
    requires
        exponent <= 32,
    ensures
        value == pow2(exponent as nat),
        1 <= value <= 0x1_0000_0000,
{
    let mut value: i128 = 1;
    let mut index: u32 = 0;
    proof {
        lemma2_to64();
    }
    while index < exponent
        invariant
            index <= exponent <= 32,
            value == pow2(index as nat),
        decreases exponent - index,
    {
        proof {
            lemma2_to64();
            lemma_pow2_unfold((index + 1) as nat);
            lemma_pow2_strictly_increases(index as nat, 32);
        }
        value = 2 * value;
        index = index + 1;
    }
    proof {
        lemma2_to64();
        lemma_pow2_pos(exponent as nat);
        if exponent < 32 {
            lemma_pow2_strictly_increases(exponent as nat, 32);
        }
    }
    value
}

/// The 32-bit number that `value` wraps to.
fn wrapped(value: i128) -> (result: i32)
    requires
        -0x4000_0000_0000_0000_0000_0000_0000 <= value <= 0x4000_0000_0000_0000_0000_0000_0000,
    ensures
        result == wrap_i32(value as int),
{
    let shifted: i128 = value + 0x8000_0000 + 0x1000_0000_0000_0000_0000_0000_0000_0000;
    (shifted % 0x1_0000_0000 - 0x8000_0000) as i32
}

/// The sample that a Huffman code and plain bits stand for.
fn decoded_sample(
    substream: &ParserSubstreamState,
    channel: usize,
    code: i32,
    plain_value: u32,
) -> (sample: i32)
    requires
        channel < 16,
        0 <= plain_bits(*substream, channel as int),
        shifts_fit(*substream, channel as int),
        plain_value < 0x8000_0000,
    ensures
        sample == sample_value(*substream, channel as int, code as int, plain_value as int),
{
    let step: u32 = substream.quantiser_step_size[channel];
    let plain: u32 = substream.huff_lsbs[channel] - step;
    let huff_type: usize = substream.huff_type[channel];
    let bias: i128 = if huff_type == 0 {
        if plain == 0 {
            0
        } else {
            power(plain - 1)
        }
    } else if huff_type > plain as usize + 2 {
        0
    } else {
        power(plain + 2 - huff_type as u32)
    };
    let scale: i128 = power(plain);
    let factor: i128 = power(step);
    let offset: i32 = substream.huff_offset[channel];
    assert(-0x8000_0000_0000_0000 <= code * scale <= 0x8000_0000_0000_0000) by (nonlinear_arith)
        requires
            -0x8000_0000 <= code <= 0x7FFF_FFFF,
            1 <= scale <= 0x1_0000_0000,
    ;
    let sum: i128 = plain_value as i128 + code as i128 * scale - bias + offset as i128;
    assert(-0x1_0000_0000_0000_0000_0000_0000 <= sum * factor
        <= 0x1_0000_0000_0000_0000_0000_0000) by (nonlinear_arith)
        requires
            -0x1_0000_0000_0000_0000 <= sum <= 0x1_0000_0000_0000_0000,
            1 <= factor <= 0x1_0000_0000,
    ;
    wrapped(sum * factor)
}

/// Reads the bypassed LSBs of a row.
pub fn bypassed_row(substream: &ParserSubstreamState, reader: &mut BitReader) -> (result: Result<
    [i32; 16],
    BlockError,
>)
    requires
        old(reader).wf(),
        substream.primitive_matrices <= 16,
    ensures
        final(reader).wf(),
        final(reader).data() == old(reader).data(),
        match read_bypassed(*substream, old(reader).data(), old(reader).pos(), 0, zero_row()) {
            Ok((row, end)) => {
                &&& result matches Ok(read) && read@ == row
                &&& final(reader).pos() == end
            },
            Err(error) => result == Err::<[i32; 16], BlockError>(error),
        },
{
    let mut row: [i32; 16] = [0; 16];
    let mut matrix: usize = 0;
    assert(row@ =~= zero_row());
    while matrix < substream.primitive_matrices
        invariant
            matrix <= substream.primitive_matrices <= 16,
            reader.wf(),
            reader.data() == old(reader).data(),
            read_bypassed(*substream, reader.data(), old(reader).pos(), 0, zero_row())
                == read_bypassed(*substream, reader.data(), reader.pos(), matrix as int, row@),
        decreases substream.primitive_matrices - matrix,
    {
        let width: u32 = if substream.restart_sync_word == WIDE_SYNC_WORD {
            substream.lsb_bypass_bit_count[matrix] as u32
        } else if substream.lsb_bypass_used[matrix] {
            1
        } else {
            0
        };
        if width > 8 {
            return Err(BlockError::Bits(BitError::TooWide));
        }
        proof {
            lemma2_to64();
            bits_value_in_range(reader.data(), reader.pos(), width as nat);
            if width < 8 {
                lemma_pow2_strictly_increases(width as nat, 8);
            }
        }
        match reader.get_n(width) {
            Ok(value) => {
                row[matrix] = value as i32;
            },
            Err(error) => {
                return Err(BlockError::Bits(error));
            },
        }
        matrix = matrix + 1;
    }
    Ok(row)
}

/// Reads the sample of `channel`.
pub fn channel_sample(
    substream: &ParserSubstreamState,
    books: &Vec<HuffmanBook>,
    reader: &mut BitReader,
    channel: usize,
) -> (result: Result<i32, BlockError>)
    requires
        old(reader).wf(),
        channel < 16,
        shifts_fit(*substream, channel as int),
        substream.huff_type@[channel as int] <= books@.len(),
    ensures
        final(reader).wf(),
        final(reader).data() == old(reader).data(),
        match read_sample(
            *substream,
            books@,
            old(reader).data(),
            old(reader).pos(),
            channel as int,
        ) {
            Ok((sample, end)) => result == Ok::<i32, BlockError>(sample) && final(reader).pos()
                == end,
            Err(error) => result == Err::<i32, BlockError>(error),
        },
{
    let huff_type: usize = substream.huff_type[channel];
    if substream.quantiser_step_size[channel] > substream.huff_lsbs[channel] {
        return Err(BlockError::QuantiserStepTooLarge);
    }
    let plain: u32 = substream.huff_lsbs[channel] - substream.quantiser_step_size[channel];
    proof {
        reader.wf_bounds();
    }
    let start: u64 = reader.position();
    let code: i32 = if huff_type != 0 {
        match reader.get_huffman(&books[huff_type - 1]) {
            Ok(code) => code,
            Err(error) => {
                return Err(BlockError::Bits(error));
            },
        }
    } else {
        0
    };
    proof {
        lemma2_to64();
        bits_value_in_range(reader.data(), reader.pos(), plain as nat);
        if plain < 31 {
            lemma_pow2_strictly_increases(plain as nat, 31);
        }
    }
    let plain_value: u32 = match reader.get_n(plain) {
        Ok(value) => value,
        Err(error) => {
            return Err(BlockError::Bits(error));
        },
    };
    let sample: i32 = decoded_sample(substream, channel, code, plain_value);
    if substream.restart_sync_word != WIDE_SYNC_WORD {
        proof {
            reader.wf_bounds();
        }
        let taken: u64 = reader.position() - start;
        if sample >= 0x80_0000 {
            return Err(BlockError::HuffmanPositiveSaturation);
        }
        if sample < -0x80_0000 {
            return Err(BlockError::HuffmanNegativeSaturation);
        }
        if taken > MAX_SAMPLE_BITS {
            return Err(BlockError::HuffmanSampleTooLong);
        }
    }
    Ok(sample)
}

/// Reads one sample per channel.
pub fn sample_row(
    substream: &ParserSubstreamState,
    books: &Vec<HuffmanBook>,
    reader: &mut BitReader,
) -> (result: Result<[i32; 16], BlockError>)
    requires
        old(reader).wf(),
        samples_fit(*substream, books@),
        lsbs_within(*substream),
    ensures
        final(reader).wf(),
        final(reader).data() == old(reader).data(),
        match read_samples(
            *substream,
            books@,
            old(reader).data(),
            old(reader).pos(),
            substream.min_chan as int,
            zero_row(),
        ) {
            Ok((row, end)) => {
                &&& result matches Ok(read) && read@ == row
                &&& final(reader).pos() == end
            },
            Err(error) => result == Err::<[i32; 16], BlockError>(error),
        },
{
    let mut row: [i32; 16] = [0; 16];
    let mut channel: usize = substream.min_chan;
    assert(row@ =~= zero_row());
    while channel <= substream.max_chan
        invariant
            substream.min_chan <= channel,
            reader.wf(),
            reader.data() == old(reader).data(),
            samples_fit(*substream, books@),
            lsbs_within(*substream),
            read_samples(
                *substream,
                books@,
                reader.data(),
                old(reader).pos(),
                substream.min_chan as int,
                zero_row(),
            ) == read_samples(
                *substream,
                books@,
                reader.data(),
                reader.pos(),
                channel as int,
                row@,
            ),
        decreases substream.max_chan + 1 - channel,
    {
        assert(substream.huff_lsbs@[channel as int] <= substream.max_lsbs);
        assert(substream.huff_type@[channel as int] <= books@.len());
        match channel_sample(substream, books, reader, channel) {
            Ok(sample) => {
                row[channel] = sample;
            },
            Err(error) => {
                return Err(error);
            },
        }
        channel = channel + 1;
    }
    Ok(row)
}

} // verus!
