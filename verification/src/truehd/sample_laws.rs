//! Laws of the samples of a block: what a sample is in terms of its bits, and
//! where in the data each of them lies.

use crate::truehd::bits::{
    bit_at, bits_value, bits_value_in_range, huffman_entry, BitError, HuffmanBook, HuffmanEntry,
};
use crate::truehd::block::{read_body, read_length};
use crate::truehd::errors::BlockError;
use crate::truehd::samples::{read_bypassed, read_row, read_rows, read_sample, read_samples};
use crate::truehd::state::ParserSubstreamState;
use vstd::arithmetic::power2::{lemma2_to64, lemma_pow2_unfold, pow2};
use vstd::prelude::*;

verus! {

/// A number of bits is made of its first ones and its last ones.
pub proof fn bits_join(data: Seq<u8>, position: int, first: nat, rest: nat)
    ensures
        bits_value(data, position, first + rest) == bits_value(data, position, first) * pow2(rest)
            + bits_value(data, position + first, rest),
    decreases rest,
{
    lemma2_to64();
    if rest > 0 {
        let short = (rest - 1) as nat;
        bits_join(data, position, first, short);
        lemma_pow2_unfold(rest);
        let high = bits_value(data, position, first);
        let half = pow2(short) as int;
        assert(2 * (high * half) == high * (2 * half)) by (nonlinear_arith);
        assert((first + rest - 1) as nat == first + short);
        assert(position + (first + rest) - 1 == position + first + rest - 1);
    } else {
        assert(bits_value(data, position, first) * 1 == bits_value(data, position, first));
    }
}

/// Eight bits at a byte boundary are the byte, the most significant bit first.
pub proof fn bytes_are_read_as_they_are(data: Seq<u8>, place: int)
    requires
        0 <= place < data.len(),
    ensures
        bits_value(data, 8 * place, 8) == data[place],
        bit_at(data, 8 * place) == 1 <==> data[place] >= 128,
{
    reveal_with_fuel(bits_value, 9);
    let byte = data[place] as int;
    assert(bit_at(data, 8 * place + 0) == (byte / 128) % 2);
    assert(bit_at(data, 8 * place + 1) == (byte / 64) % 2);
    assert(bit_at(data, 8 * place + 2) == (byte / 32) % 2);
    assert(bit_at(data, 8 * place + 3) == (byte / 16) % 2);
    assert(bit_at(data, 8 * place + 4) == (byte / 8) % 2);
    assert(bit_at(data, 8 * place + 5) == (byte / 4) % 2);
    assert(bit_at(data, 8 * place + 6) == (byte / 2) % 2);
    assert(bit_at(data, 8 * place + 7) == byte % 2);
}

/// A signed number differs from the unsigned one of the same bits by a whole
/// turn, and is negative exactly where its first bit is set.
pub proof fn signs_come_first(data: Seq<u8>, position: int, count: nat)
    requires
        count > 0,
    ensures
        ({
            let signed = crate::truehd::bits::signed_bits_value(data, position, count);
            let unsigned = bits_value(data, position, count);
            &&& signed < 0 <==> bit_at(data, position) == 1
            &&& signed == unsigned || signed == unsigned - pow2(count)
        }),
{
    crate::truehd::bits::signed_bits_value_in_range(data, position, count);
    bits_value_in_range(data, position, count);
}

/// Whether the bits at `position` are the code of an entry.
pub open spec fn is_code(entry: HuffmanEntry, data: Seq<u8>, position: int) -> bool {
    &&& entry.length <= 32
    &&& position + entry.length <= 8 * data.len()
    &&& bits_value(data, position, entry.length as nat) == entry.code
}

/// A code is found exactly where an entry of the book has the bits that come
/// next, and it is the first such entry.
pub proof fn codes_are_found_in_the_book(
    entries: Seq<HuffmanEntry>,
    data: Seq<u8>,
    position: int,
    index: int,
)
    requires
        0 <= index <= entries.len(),
    ensures
        match huffman_entry(entries, data, position, index) {
            Some(entry) => exists|place: int|
                {
                    &&& index <= place < entries.len()
                    &&& #[trigger] entries[place] == entry
                    &&& is_code(entry, data, position)
                    &&& forall|before: int|
                        index <= before < place ==> !is_code(
                            #[trigger] entries[before],
                            data,
                            position,
                        )
                },
            None => forall|place: int|
                index <= place < entries.len() ==> !is_code(
                    #[trigger] entries[place],
                    data,
                    position,
                ),
        },
    decreases entries.len() - index,
{
    if index < entries.len() {
        if is_code(entries[index], data, position) {
            assert(entries[index] == huffman_entry(entries, data, position, index)->0);
        } else {
            codes_are_found_in_the_book(entries, data, position, index + 1);
        }
    }
}

/// The numbers are the same in 32-bit arithmetic.
pub open spec fn same_in_32_bits(left: int, right: int) -> bool {
    (left - right) % 0x1_0000_0000 == 0
}

/// A number wraps to one that is the same in 32-bit arithmetic.
proof fn lemma_wrap(value: int)
    ensures
        same_in_32_bits(crate::truehd::samples::wrap_i32(value), value),
        -0x8000_0000 <= crate::truehd::samples::wrap_i32(value) < 0x8000_0000,
{
}

/// Numbers that are the same as one are the same.
proof fn lemma_same(left: int, middle: int, right: int)
    requires
        same_in_32_bits(left, middle),
        same_in_32_bits(middle, right),
    ensures
        same_in_32_bits(left, right),
        same_in_32_bits(right, left),
{
}

/// What is the same as a number stays so with another one added to both.
proof fn lemma_same_shifted(left: int, right: int, by: int)
    requires
        same_in_32_bits(left, right),
    ensures
        same_in_32_bits(left + by, right + by),
{
}

/// A sample, whether Huffman-coded or not, moves with the offset of its channel:
/// two substreams that differ only in it read the same bits to samples that
/// differ as the offsets do, shifted by the quantiser step.
pub proof fn samples_move_with_their_offset(
    substream: ParserSubstreamState,
    other: ParserSubstreamState,
    books: Seq<HuffmanBook>,
    data: Seq<u8>,
    position: int,
    channel: int,
)
    requires
        0 <= channel < 16,
        other == (ParserSubstreamState { huff_offset: other.huff_offset, ..substream }),
    ensures
        match (
            read_sample(substream, books, data, position, channel),
            read_sample(other, books, data, position, channel),
        ) {
            (Ok((left, left_end)), Ok((right, right_end))) => {
                &&& left_end == right_end
                &&& same_in_32_bits(
                    right - left,
                    (other.huff_offset@[channel] - substream.huff_offset@[channel]) * pow2(
                        substream.quantiser_step_size@[channel] as nat,
                    ),
                )
            },
            (Ok(_), Err(error)) => substream.restart_sync_word != 0x31EC && (error
                == BlockError::HuffmanPositiveSaturation || error
                == BlockError::HuffmanNegativeSaturation),
            _ => true,
        },
{
    let plain = substream.huff_lsbs@[channel] - substream.quantiser_step_size@[channel];
    let step = pow2(substream.quantiser_step_size@[channel] as nat) as int;
    if let (Ok((left, left_end)), Ok((right, right_end))) = (
        read_sample(substream, books, data, position, channel),
        read_sample(other, books, data, position, channel),
    ) {
        let (code, length) = crate::truehd::samples::read_code(
            substream,
            books,
            data,
            position,
            channel,
        )->0;
        let bare = bits_value(data, position + length, plain as nat) + code * pow2(plain as nat)
            - crate::truehd::samples::sample_bias(substream.huff_type@[channel] as int, plain);
        let one = (bare + substream.huff_offset@[channel]) * step;
        let two = (bare + other.huff_offset@[channel]) * step;
        let moved = (other.huff_offset@[channel] - substream.huff_offset@[channel]) * step;
        assert(two - one == moved) by (nonlinear_arith)
            requires
                one == (bare + substream.huff_offset@[channel]) * step,
                two == (bare + other.huff_offset@[channel]) * step,
                moved == (other.huff_offset@[channel] - substream.huff_offset@[channel]) * step,
        ;
        lemma_wrap(one);
        lemma_wrap(two);
        assert(left == crate::truehd::samples::wrap_i32(one));
        assert(right == crate::truehd::samples::wrap_i32(two));
    }
}

/// What a sample's bits are counted from: half the range of its plain bits
/// without Huffman coding, and twice the range, the range and half of it with
/// the first, the second and the third book. No plain bits leave nothing to
/// halve.
pub open spec fn counted_from(huff_type: int, plain: nat) -> int {
    if huff_type == 1 {
        (2 * pow2(plain)) as int
    } else if huff_type == 2 {
        pow2(plain) as int
    } else if plain == 0 {
        0
    } else {
        pow2((plain - 1) as nat) as int
    }
}

/// A sample is `((plain bits) + (code << n) - bias + offset) << step` in 32-bit
/// arithmetic, where `n` is the number of its plain bits, with each of the four
/// ways of coding. A checked one is refused unless it fits 24 bits and takes no
/// more than 29.
pub proof fn samples_are_put_together(
    substream: ParserSubstreamState,
    books: Seq<HuffmanBook>,
    data: Seq<u8>,
    position: int,
    channel: int,
    sample: i32,
)
    requires
        0 <= channel < 16,
        0 <= substream.huff_type@[channel] <= 3,
        substream.quantiser_step_size@[channel] <= substream.huff_lsbs@[channel],
        ({
            let step = substream.quantiser_step_size@[channel];
            let plain = (substream.huff_lsbs@[channel] - step) as nat;
            let huff_type = substream.huff_type@[channel] as int;
            let found = huffman_entry(books[huff_type - 1].entries@, data, position, 0);
            let code = if huff_type == 0 {
                0
            } else {
                found->0.value as int
            };
            let length = if huff_type == 0 {
                0
            } else {
                found->0.length as int
            };
            &&& huff_type > 0 ==> found is Some
            &&& same_in_32_bits(
                sample as int,
                (bits_value(data, position + length, plain) + code * pow2(plain) - counted_from(
                    huff_type,
                    plain,
                ) + substream.huff_offset@[channel]) * pow2(step as nat),
            )
        }),
    ensures
        ({
            let huff_type = substream.huff_type@[channel] as int;
            let length = if huff_type == 0 {
                0
            } else {
                huffman_entry(books[huff_type - 1].entries@, data, position, 0)->0.length as int
            };
            let bits = length + substream.huff_lsbs@[channel]
                - substream.quantiser_step_size@[channel];
            let result = read_sample(substream, books, data, position, channel);
            if position + bits > 8 * data.len() {
                result == Err::<(i32, int), BlockError>(BlockError::Bits(BitError::EndOfData))
            } else if substream.restart_sync_word == 0x31EC {
                result == Ok::<(i32, int), BlockError>((sample, position + bits))
            } else if sample >= 8388608 {
                result == Err::<(i32, int), BlockError>(BlockError::HuffmanPositiveSaturation)
            } else if sample < -8388608 {
                result == Err::<(i32, int), BlockError>(BlockError::HuffmanNegativeSaturation)
            } else if bits > 29 {
                result == Err::<(i32, int), BlockError>(BlockError::HuffmanSampleTooLong)
            } else {
                result == Ok::<(i32, int), BlockError>((sample, position + bits))
            }
        }),
{
    let step = substream.quantiser_step_size@[channel];
    let plain = (substream.huff_lsbs@[channel] - step) as nat;
    let huff_type = substream.huff_type@[channel] as int;
    let (code, length) = crate::truehd::samples::read_code(
        substream,
        books,
        data,
        position,
        channel,
    )->0;
    lemma2_to64();
    lemma_pow2_unfold(plain + 1);
    assert(counted_from(huff_type, plain) == crate::truehd::samples::sample_bias(
        huff_type,
        plain as int,
    ));
    let whole = (bits_value(data, position + length, plain) + code * pow2(plain) - counted_from(
        huff_type,
        plain,
    ) + substream.huff_offset@[channel]) * pow2(step as nat);
    lemma_wrap(whole);
    lemma_same(crate::truehd::samples::wrap_i32(whole), whole, sample as int);
}

/// A step above the Huffman LSBs of a channel, and a code that is in no entry of
/// its book, are refused.
pub proof fn samples_without_a_code_are_refused(
    substream: ParserSubstreamState,
    books: Seq<HuffmanBook>,
    data: Seq<u8>,
    position: int,
    channel: int,
)
    requires
        0 <= channel < 16,
    ensures
        ({
            let step = substream.quantiser_step_size@[channel];
            let huff_type = substream.huff_type@[channel] as int;
            let result = read_sample(substream, books, data, position, channel);
            &&& step > substream.huff_lsbs@[channel] <==> result == Err::<(i32, int), BlockError>(
                BlockError::QuantiserStepTooLarge,
            )
            &&& step <= substream.huff_lsbs@[channel] && huff_type > 0 && huffman_entry(
                books[huff_type - 1].entries@,
                data,
                position,
                0,
            ) is None <==> result == Err::<(i32, int), BlockError>(
                BlockError::Bits(BitError::UnknownCode),
            )
        }),
{
}

/// The bypassed LSBs of a matrix lie between two positions. In a stream with
/// the restart sync word 0x31EC they have a width of their own of up to eight
/// bits, in any other one bit where they are used.
pub open spec fn bypassed_lie_between(
    substream: ParserSubstreamState,
    data: Seq<u8>,
    from: int,
    to: int,
    matrix: int,
    value: int,
) -> bool {
    let width = if substream.restart_sync_word == 0x31EC {
        substream.lsb_bypass_bit_count@[matrix] as int
    } else if substream.lsb_bypass_used@[matrix] {
        1
    } else {
        0
    };
    &&& to == from + width
    &&& width <= 8
    &&& to <= 8 * data.len()
    &&& value == bits_value(data, from, width as nat)
}

/// The bypassed LSBs of a row follow each other matrix by matrix, without a
/// gap. Every other place of the row is left as it was. `cuts` are the positions
/// between them.
pub proof fn bypassed_bits_lie_in_order(
    substream: ParserSubstreamState,
    data: Seq<u8>,
    position: int,
    matrix: int,
    row: Seq<i32>,
) -> (cuts: Seq<int>)
    requires
        0 <= matrix <= substream.primitive_matrices <= 16,
        row.len() == 16,
        read_bypassed(substream, data, position, matrix, row) is Ok,
    ensures
        ({
            let (read, end) = read_bypassed(substream, data, position, matrix, row)->Ok_0;
            &&& cuts.len() == substream.primitive_matrices - matrix + 1
            &&& cuts[0] == position
            &&& cuts.last() == end
            &&& read.len() == 16
            &&& forall|place: int|
                #![trigger read[place]]
                0 <= place < 16 ==> if matrix <= place < substream.primitive_matrices {
                    bypassed_lie_between(
                        substream,
                        data,
                        cuts[place - matrix],
                        cuts[place - matrix + 1],
                        place,
                        read[place] as int,
                    )
                } else {
                    read[place] == row[place]
                }
        }),
    decreases substream.primitive_matrices - matrix,
{
    if matrix >= substream.primitive_matrices {
        seq![position]
    } else {
        let width = crate::truehd::samples::bypass_bits(substream, matrix);
        let value = bits_value(data, position, width as nat);
        bits_value_in_range(data, position, width as nat);
        lemma2_to64();
        if width < 8 {
            vstd::arithmetic::power2::lemma_pow2_strictly_increases(width as nat, 8);
        }
        let rest = bypassed_bits_lie_in_order(
            substream,
            data,
            position + width,
            matrix + 1,
            row.update(matrix, value as i32),
        );
        let cuts = seq![position] + rest;
        let (read, end) = read_bypassed(substream, data, position, matrix, row)->Ok_0;
        assert forall|place: int|
            #![trigger read[place]]
            matrix < place < substream.primitive_matrices implies cuts[place - matrix + 1]
            == rest[place - (matrix + 1) + 1] && cuts[place - matrix] == rest[place - (matrix
            + 1)] by {}
        assert(read[matrix] == value);
        assert(cuts[1] == position + width);
        assert(bypassed_lie_between(substream, data, cuts[0], cuts[1], matrix, value));
        cuts
    }
}

/// The samples of a row follow each other channel by channel, from the first
/// channel of the substream to the last, without a gap. Every other place of
/// the row is left as it was.
pub proof fn samples_lie_in_order(
    substream: ParserSubstreamState,
    books: Seq<HuffmanBook>,
    data: Seq<u8>,
    position: int,
    channel: int,
    row: Seq<i32>,
) -> (cuts: Seq<int>)
    requires
        0 <= channel <= substream.max_chan + 1 <= 16,
        row.len() == 16,
        read_samples(substream, books, data, position, channel, row) is Ok,
    ensures
        ({
            let (read, end) = read_samples(substream, books, data, position, channel, row)->Ok_0;
            &&& cuts.len() == substream.max_chan + 2 - channel
            &&& cuts[0] == position
            &&& cuts.last() == end
            &&& read.len() == 16
            &&& forall|place: int|
                #![trigger read[place]]
                0 <= place < 16 ==> if channel <= place <= substream.max_chan {
                    read_sample(substream, books, data, cuts[place - channel], place) == Ok::<
                        (i32, int),
                        BlockError,
                    >((read[place], cuts[place - channel + 1]))
                } else {
                    read[place] == row[place]
                }
        }),
    decreases substream.max_chan + 1 - channel,
{
    if channel > substream.max_chan {
        seq![position]
    } else {
        let (sample, behind) = read_sample(substream, books, data, position, channel)->Ok_0;
        let rest = samples_lie_in_order(
            substream,
            books,
            data,
            behind,
            channel + 1,
            row.update(channel, sample),
        );
        let cuts = seq![position] + rest;
        let (read, end) = read_samples(substream, books, data, position, channel, row)->Ok_0;
        assert forall|place: int|
            #![trigger read[place]]
            channel < place <= substream.max_chan implies cuts[place - channel + 1] == rest[place
            - (channel + 1) + 1] && cuts[place - channel] == rest[place - (channel + 1)] by {}
        assert(read[channel] == sample);
        cuts
    }
}

/// Row `row` of what was read lies between two positions: its bypassed LSBs
/// first, read over a row of zeros, and its samples behind them.
pub open spec fn row_lies_between(
    substream: ParserSubstreamState,
    books: Seq<HuffmanBook>,
    data: Seq<u8>,
    from: int,
    to: int,
    lsbs: Seq<i32>,
    samples: Seq<i32>,
) -> bool {
    let zeros = Seq::new(16, |place: int| 0i32);
    exists|middle: int|
        {
            &&& #[trigger] read_bypassed(substream, data, from, 0, zeros) == Ok::<
                (Seq<i32>, int),
                BlockError,
            >((lsbs, middle))
            &&& read_samples(
                substream,
                books,
                data,
                middle,
                substream.min_chan as int,
                zeros,
            ) == Ok::<(Seq<i32>, int), BlockError>((samples, to))
        }
}

/// The rows of a block follow each other without a gap, as many as its size
/// says; the rows behind them are left as they were.
pub proof fn rows_lie_in_order(
    substream: ParserSubstreamState,
    books: Seq<HuffmanBook>,
    data: Seq<u8>,
    position: int,
    row: int,
    lsbs: Seq<Seq<i32>>,
    samples: Seq<Seq<i32>>,
) -> (cuts: Seq<int>)
    requires
        0 <= row <= substream.block_size <= 160,
        lsbs.len() == 160,
        samples.len() == 160,
        read_rows(substream, books, data, position, row, lsbs, samples) is Ok,
    ensures
        ({
            let (read_lsbs, read, end) = read_rows(
                substream,
                books,
                data,
                position,
                row,
                lsbs,
                samples,
            )->Ok_0;
            &&& cuts.len() == substream.block_size - row + 1
            &&& cuts[0] == position
            &&& cuts.last() == end
            &&& read_lsbs.len() == 160
            &&& read.len() == 160
            &&& forall|place: int|
                #![trigger read[place]]
                #![trigger read_lsbs[place]]
                0 <= place < 160 ==> if row <= place < substream.block_size {
                    row_lies_between(
                        substream,
                        books,
                        data,
                        cuts[place - row],
                        cuts[place - row + 1],
                        read_lsbs[place],
                        read[place],
                    )
                } else {
                    read_lsbs[place] == lsbs[place] && read[place] == samples[place]
                }
        }),
    decreases substream.block_size - row,
{
    if row >= substream.block_size {
        seq![position]
    } else {
        let (row_lsbs, row_samples, behind) = read_row(substream, books, data, position)->Ok_0;
        let rest = rows_lie_in_order(
            substream,
            books,
            data,
            behind,
            row + 1,
            lsbs.update(row, row_lsbs),
            samples.update(row, row_samples),
        );
        let cuts = seq![position] + rest;
        let (read_lsbs, read, end) = read_rows(
            substream,
            books,
            data,
            position,
            row,
            lsbs,
            samples,
        )->Ok_0;
        assert forall|place: int|
            #![trigger read[place]]
            #![trigger read_lsbs[place]]
            row < place < substream.block_size implies cuts[place - row + 1] == rest[place - (row
            + 1) + 1] && cuts[place - row] == rest[place - (row + 1)] by {}
        let zeros = Seq::new(16, |place: int| 0i32);
        assert(crate::truehd::samples::zero_row() =~= zeros);
        assert(read_lsbs[row] == row_lsbs && read[row] == row_samples);
        assert(row_lies_between(
            substream,
            books,
            data,
            position,
            behind,
            row_lsbs,
            row_samples,
        ));
        cuts
    }
}

/// A block's data is its rows over zeros, from the first bit on, and where the
/// substream is protected its checksum of eight bits behind them. A declared
/// length is the length of the rows.
pub proof fn bodies_hold_their_rows(
    substream: ParserSubstreamState,
    books: Seq<HuffmanBook>,
    data: Seq<u8>,
    position: int,
    declared: Option<u16>,
)
    ensures
        read_body(substream, books, data, position, declared) matches Ok(body) ==> {
            let zeros = Seq::new(160, |row: int| Seq::new(16, |place: int| 0i32));
            let end = if substream.error_protect {
                body.end - 8
            } else {
                body.end
            };
            &&& read_rows(substream, books, data, position, 0, zeros, zeros) == Ok::<
                (Seq<Seq<i32>>, Seq<Seq<i32>>, int),
                BlockError,
            >((body.bypassed_lsb, body.block_data, end))
            &&& declared matches Some(length) ==> length == end - position
            &&& body.crc == if substream.error_protect {
                bits_value(data, end, 8)
            } else {
                0
            }
        },
        forall|channel: int|
            substream.min_chan <= channel <= substream.max_chan
                && #[trigger] substream.huff_lsbs@[channel] > substream.max_lsbs
                ==> read_body(substream, books, data, position, declared) is Err,
{
    let zeros = Seq::new(160, |row: int| Seq::new(16, |place: int| 0i32));
    assert(crate::truehd::block::zero_rows() =~= zeros) by {
        assert(crate::truehd::samples::zero_row() =~= Seq::new(16, |place: int| 0i32));
        assert forall|row: int| 0 <= row < 160 implies crate::truehd::block::zero_rows()[row]
            == zeros[row] by {}
    }
    crate::truehd::block::lemma_no_excess(substream, substream.min_chan as int);
    if read_body(substream, books, data, position, declared) is Ok && substream.error_protect {
        let end = read_body(substream, books, data, position, declared)->Ok_0.end - 8;
        bits_value_in_range(data, end, 8);
        lemma2_to64();
    }
}

/// A block whose rows can be read is accepted unless it declared another length
/// or its checksum is missing.
pub proof fn readable_bodies_are_accepted(
    substream: ParserSubstreamState,
    books: Seq<HuffmanBook>,
    data: Seq<u8>,
    position: int,
    declared: Option<u16>,
    end: int,
)
    requires
        substream.min_chan <= substream.max_chan < 16,
        forall|channel: int|
            substream.min_chan <= channel <= substream.max_chan
                ==> #[trigger] substream.huff_lsbs@[channel] <= substream.max_lsbs,
        read_rows(
            substream,
            books,
            data,
            position,
            0,
            crate::truehd::block::zero_rows(),
            crate::truehd::block::zero_rows(),
        ) matches Ok(read) && read.2 == end,
    ensures
        ({
            let result = read_body(substream, books, data, position, declared);
            if declared is Some && declared->0 != end - position {
                result matches Err(error) && error == (BlockError::BlockDataBitCountMismatch {
                    expected: declared->0,
                    actual: (end - position) as u64,
                })
            } else if substream.error_protect && end + 8 > 8 * data.len() {
                result matches Err(error) && error == BlockError::Bits(BitError::EndOfData)
            } else {
                result is Ok
            }
        }),
{
    lemma_none_exceeds(substream, substream.min_chan as int);
}

/// Channels within the limit hold no excess.
proof fn lemma_none_exceeds(substream: ParserSubstreamState, from: int)
    requires
        substream.min_chan <= from,
        forall|channel: int|
            substream.min_chan <= channel <= substream.max_chan
                ==> #[trigger] substream.huff_lsbs@[channel] <= substream.max_lsbs,
    ensures
        crate::truehd::block::first_excess(substream, from) is None,
    decreases substream.max_chan + 1 - from,
{
    if from <= substream.max_chan {
        lemma_none_exceeds(substream, from + 1);
    }
}

/// The first channel with too many Huffman LSBs is the one that is named.
pub proof fn excess_names_the_first_channel(
    substream: ParserSubstreamState,
    books: Seq<HuffmanBook>,
    data: Seq<u8>,
    position: int,
    declared: Option<u16>,
    channel: int,
)
    requires
        substream.min_chan <= channel <= substream.max_chan < 16,
        substream.huff_lsbs@[channel] > substream.max_lsbs,
        forall|before: int|
            substream.min_chan <= before < channel ==> #[trigger] substream.huff_lsbs@[before]
                <= substream.max_lsbs,
    ensures
        read_body(substream, books, data, position, declared) matches Err(error) && error
            == (BlockError::HuffLsbsTooLarge {
            channel: channel as usize,
            actual: substream.huff_lsbs@[channel] as usize,
            max: substream.max_lsbs as usize,
        }),
{
    lemma_first_excess(substream, substream.min_chan as int, channel);
}

/// The search for an excess goes on over channels without one.
proof fn lemma_first_excess(substream: ParserSubstreamState, from: int, channel: int)
    requires
        from <= channel <= substream.max_chan,
        substream.huff_lsbs@[channel] > substream.max_lsbs,
        forall|before: int|
            from <= before < channel ==> #[trigger] substream.huff_lsbs@[before]
                <= substream.max_lsbs,
    ensures
        crate::truehd::block::first_excess(substream, from) == Some(channel),
    decreases channel - from,
{
    if from < channel {
        lemma_first_excess(substream, from + 1, channel);
    }
}

/// A protected block declares its length in 16 bits, of up to 16000; another
/// one declares none.
pub proof fn lengths_are_declared_by_protected_blocks(
    substream: ParserSubstreamState,
    data: Seq<u8>,
    position: int,
)
    ensures
        ({
            let result = read_length(substream, data, position);
            let bits = bits_value(data, position, 16);
            if !substream.error_protect {
                result == Ok::<(Option<u16>, int), BlockError>((None, position))
            } else if position + 16 > 8 * data.len() {
                result == Err::<(Option<u16>, int), BlockError>(
                    BlockError::Bits(BitError::EndOfData),
                )
            } else if bits > 16000 {
                result == Err::<(Option<u16>, int), BlockError>(
                    BlockError::BlockDataBitsTooLarge(bits as u16),
                )
            } else {
                result == Ok::<(Option<u16>, int), BlockError>((Some(bits as u16), position + 16))
            }
        }),
{
    bits_value_in_range(data, position, 16);
    lemma2_to64();
}

/// The bypassed LSBs are refused for a reason: one of them is wider than eight
/// bits, or the data ends in it.
pub proof fn bypassed_bits_are_refused_for_a_reason(
    substream: ParserSubstreamState,
    data: Seq<u8>,
    position: int,
    matrix: int,
    row: Seq<i32>,
)
    requires
        0 <= matrix <= substream.primitive_matrices <= 16,
    ensures
        read_bypassed(substream, data, position, matrix, row) matches Err(error) ==> {
            ||| error == BlockError::Bits(BitError::TooWide) && substream.restart_sync_word == 0x31EC
                && exists|place: int|
                matrix <= place < substream.primitive_matrices
                    && #[trigger] substream.lsb_bypass_bit_count@[place] > 8
            ||| error == BlockError::Bits(BitError::EndOfData) && position + 8 * (
            substream.primitive_matrices - matrix) > 8 * data.len()
        },
    decreases substream.primitive_matrices - matrix,
{
    if matrix < substream.primitive_matrices {
        let width = crate::truehd::samples::bypass_bits(substream, matrix);
        if width > 8 {
            assert(substream.lsb_bypass_bit_count@[matrix] > 8);
        } else if position + width <= 8 * data.len() {
            bypassed_bits_are_refused_for_a_reason(
                substream,
                data,
                position + width,
                matrix + 1,
                row.update(matrix, bits_value(data, position, width as nat) as i32),
            );
        }
    }
}

/// A row of samples is refused exactly where one of them is, for the same reason:
/// where every sample at its place can be read, the row can.
pub proof fn readable_samples_make_a_row(
    substream: ParserSubstreamState,
    books: Seq<HuffmanBook>,
    data: Seq<u8>,
    position: int,
    channel: int,
    row: Seq<i32>,
)
    requires
        0 <= channel <= substream.max_chan + 1 <= 16,
    ensures
        read_samples(substream, books, data, position, channel, row) matches Err(error)
            ==> exists|place: int, from: int|
            {
                &&& channel <= place <= substream.max_chan
                &&& #[trigger] read_sample(substream, books, data, from, place) == Err::<
                    (i32, int),
                    BlockError,
                >(error)
            },
    decreases substream.max_chan + 1 - channel,
{
    if channel <= substream.max_chan {
        match read_sample(substream, books, data, position, channel) {
            Ok((sample, behind)) => {
                readable_samples_make_a_row(
                    substream,
                    books,
                    data,
                    behind,
                    channel + 1,
                    row.update(channel, sample),
                );
            },
            Err(error) => {
                assert(read_sample(substream, books, data, position, channel) == Err::<
                    (i32, int),
                    BlockError,
                >(error));
            },
        }
    }
}

/// The row at `from` is refused: its bypassed LSBs are, or its samples behind them.
pub open spec fn row_refused(
    substream: ParserSubstreamState,
    books: Seq<HuffmanBook>,
    data: Seq<u8>,
    from: int,
    error: BlockError,
) -> bool {
    let zeros = Seq::new(16, |place: int| 0i32);
    match read_bypassed(substream, data, from, 0, zeros) {
        Err(reason) => error == reason,
        Ok((_, middle)) => read_samples(
            substream,
            books,
            data,
            middle,
            substream.min_chan as int,
            zeros,
        ) == Err::<(Seq<i32>, int), BlockError>(error),
    }
}

/// The rows of a block are refused exactly where the bypassed LSBs or the samples
/// of one of them are, for the same reason.
pub proof fn readable_rows_make_a_block(
    substream: ParserSubstreamState,
    books: Seq<HuffmanBook>,
    data: Seq<u8>,
    position: int,
    row: int,
    lsbs: Seq<Seq<i32>>,
    samples: Seq<Seq<i32>>,
)
    ensures
        read_rows(substream, books, data, position, row, lsbs, samples) matches Err(error)
            ==> exists|from: int| #[trigger] row_refused(substream, books, data, from, error),
    decreases substream.block_size - row,
{
    if row < substream.block_size {
        let zeros = Seq::new(16, |place: int| 0i32);
        assert(crate::truehd::samples::zero_row() =~= zeros);
        match read_row(substream, books, data, position) {
            Ok((row_lsbs, row_samples, behind)) => {
                readable_rows_make_a_block(
                    substream,
                    books,
                    data,
                    behind,
                    row + 1,
                    lsbs.update(row, row_lsbs),
                    samples.update(row, row_samples),
                );
            },
            Err(error) => {
                assert(row_refused(substream, books, data, position, error));
            },
        }
    }
}

} // verus!
