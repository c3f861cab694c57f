use harletty::level::Level;
use harletty::truehd::bits::{BitError, BitReader, HuffmanBook, HuffmanEntry};
use harletty::truehd::block::{Block, BlockFlags, BlockHeader, HeaderNeed, HeaderStage};
use harletty::truehd::decoder::{DecoderState, DecoderSubstreamState};
use harletty::truehd::errors::BlockError;
use harletty::truehd::state::{Guards, GuardsField, ParserState, ParserSubstreamState};
use harletty::truehd::timing::update_timing;

type Header = BlockHeader<&'static str, u8>;
type TestBlock = Block<&'static str, &'static str, u8>;

/// Bytes from a string of bits; the last byte is filled up with zeros.
fn bytes(bits: &str) -> Vec<u8> {
    let bits: Vec<u8> = bits.bytes().filter(|b| *b != b' ').map(|b| b - b'0').collect();
    bits.chunks(8)
        .map(|chunk| {
            let value = chunk.iter().fold(0u8, |value, bit| value * 2 + bit);
            value << (8 - chunk.len())
        })
        .collect()
}

fn substream() -> ParserSubstreamState {
    ParserSubstreamState {
        restart_sync_word: 0x31EA,
        min_chan: 0,
        max_chan: 1,
        max_matrix_chan: 1,
        max_shift: 5,
        max_lsbs: 24,
        error_protect: false,
        guards: Guards {
            guards: true,
            block_size: true,
            matrixing: true,
            output_shift: true,
            quantiser_step_size: true,
        },
        block_index: 1,
        block_size: 2,
        primitive_matrices: 1,
        output_shift: [0; 16],
        quantiser_step_size: [0; 16],
        huff_offset: [0; 16],
        huff_lsbs: [4; 16],
        huff_type: [0; 16],
        lsb_bypass_used: [false; 16],
        lsb_bypass_bit_count: [0; 16],
        latency: 100,
        prev_latency: 90,
        substream_end_ptr: 50,
        history_index: 0,
        output_timing_history: [0; 128],
        substream_size_history: [0; 128],
    }
}

fn state(substream: ParserSubstreamState) -> ParserState {
    ParserState {
        fail_level: Level::Warn,
        samples_per_au: 40,
        substream_index: 0,
        has_parsed_substream: false,
        has_parsed_au: true,
        is_major_sync: false,
        au_counter: 3,
        last_major_sync_index: 1,
        output_timing: 500,
        input_timing: 480,
        advance: 7,
        flags: 0x8000,
        fifo_duration: 60,
        audio_sampling_frequency_1: 48_000,
        substream_state: vec![substream],
    }
}

fn books() -> Vec<HuffmanBook> {
    let entry = |length, code, value| HuffmanEntry {
        length,
        code,
        value,
    };
    (0..3)
        .map(|book| HuffmanBook {
            entries: vec![
                entry(1, 1, book),
                entry(2, 1, -1),
                entry(3, 1, 1_000_000),
            ],
        })
        .collect()
}

fn read(
    substream: ParserSubstreamState,
    bits: &str,
) -> Result<(TestBlock, u64, ParserState), BlockError> {
    let data = bytes(bits);
    let mut reader = BitReader::new(&data);
    let mut state = state(substream);
    let block = TestBlock::read_after_headers(
        &mut state,
        &mut reader,
        &books(),
        Some("restart"),
        None,
    )?;
    Ok((block, reader.position(), state))
}

#[test]
fn bits_are_read_most_significant_first() {
    let data = bytes("1010 0110 1111 0000");
    let mut reader = BitReader::new(&data);
    assert_eq!(reader.get(), Ok(true));
    assert_eq!(reader.get_n(5), Ok(0b01001));
    assert_eq!(reader.get_s(4), Ok(-5));
    assert_eq!(reader.get_s(3), Ok(-2));
    assert_eq!(reader.position(), 13);
    assert_eq!(reader.get_n(4), Err(BitError::EndOfData));
    assert_eq!(reader.position(), 13);
    assert_eq!(reader.get_n(3), Ok(0));
    assert_eq!(reader.get(), Err(BitError::EndOfData));
    assert_eq!(reader.get_n(0), Ok(0));
}

#[test]
fn huffman_codes_are_matched_against_the_book() {
    let data = bytes("1 01 001 000 00000");
    let mut reader = BitReader::new(&data);
    let books = books();
    assert_eq!(reader.get_huffman(&books[2]), Ok(2));
    assert_eq!(reader.get_huffman(&books[2]), Ok(-1));
    assert_eq!(reader.get_huffman(&books[2]), Ok(1_000_000));
    assert_eq!(reader.position(), 6);
    assert_eq!(reader.get_huffman(&books[2]), Err(BitError::UnknownCode));
}

#[test]
fn guards_name_the_groups_that_may_change() {
    let guards = Guards {
        guards: false,
        block_size: true,
        matrixing: false,
        output_shift: true,
        quantiser_step_size: false,
    };
    assert!(!guards.need_change(GuardsField::Guards));
    assert!(guards.need_change(GuardsField::BlockSize));
    assert!(!guards.need_change(GuardsField::Matrixing));
    assert!(guards.need_change(GuardsField::OutputShift));
    assert!(!guards.need_change(GuardsField::QuantiserStepSize));
}

#[test]
fn a_header_is_read_part_by_part() {
    // Guards; block size 40; matrixing; shifts 2, -1; steps 3, 4; channel 1.
    let data = bytes("1 1 000101000 1 1 0010 1111 1 0011 0100 0 1");
    let mut reader = BitReader::new(&data);
    let mut state = state(substream());
    let mut header = Header::new();
    let mut next = |header: &mut Header, state: &mut ParserState, stage| {
        let need = header.read_stage(state, &mut reader, stage);
        (need, reader.position())
    };
    assert_eq!(
        next(&mut header, &mut state, HeaderStage::Guards),
        (Ok(HeaderNeed::Guards), 1)
    );
    assert_eq!(
        next(&mut header, &mut state, HeaderStage::BlockSize),
        (Ok(HeaderNeed::Matrixing), 12)
    );
    assert_eq!(
        next(&mut header, &mut state, HeaderStage::OutputShift),
        (Ok(HeaderNeed::ChannelParams(1)), 32)
    );
    assert_eq!(
        next(&mut header, &mut state, HeaderStage::Channel(2)),
        (Ok(HeaderNeed::Nothing), 32)
    );
    assert_eq!(HeaderNeed::Guards.next_stage(), Some(HeaderStage::BlockSize));
    assert_eq!(HeaderNeed::Matrixing.next_stage(), Some(HeaderStage::OutputShift));
    assert_eq!(
        HeaderNeed::ChannelParams(1).next_stage(),
        Some(HeaderStage::Channel(2))
    );
    assert_eq!(HeaderNeed::Nothing.next_stage(), None);
    assert_eq!(header.block_size, Some(40));
    assert_eq!(header.output_shift[..3], [Some(2), Some(-1), None]);
    assert_eq!(header.quantiser_step_size[..3], [Some(3), Some(4), None]);
    let after = &state.substream_state[0];
    assert_eq!(after.block_size, 40);
    assert_eq!(after.output_shift[..3], [2, -1, 0]);
    assert_eq!(after.quantiser_step_size[..3], [3, 4, 0]);
}

#[test]
fn a_header_without_guards_holds_the_channels_alone() {
    let mut closed = substream();
    closed.guards = Guards {
        guards: false,
        block_size: false,
        matrixing: false,
        output_shift: false,
        quantiser_step_size: false,
    };
    let data = bytes("0 0");
    let mut reader = BitReader::new(&data);
    let mut header = Header::default();
    let mut state = state(closed);
    assert_eq!(
        header.read_stage(&mut state, &mut reader, HeaderStage::Guards),
        Ok(HeaderNeed::Nothing)
    );
    assert_eq!(reader.position(), 2);
    assert_eq!(header.block_size, None);
}

#[test]
fn header_errors_name_what_is_wrong() {
    let fail = |bits: &str, index: usize| {
        let data = bytes(bits);
        let mut reader = BitReader::new(&data);
        let mut state = state(substream());
        state.substream_index = index;
        Header::new()
            .read_stage(&mut state, &mut reader, HeaderStage::BlockSize)
            .unwrap_err()
    };
    assert_eq!(
        fail("1 000000111", 0),
        BlockError::InvalidBlockSizeRange(7)
    );
    assert_eq!(
        fail("1 010100001", 0),
        BlockError::InvalidBlockSizeRange(161)
    );
    assert_eq!(
        fail("1 000101001", 0),
        BlockError::BlockSizeExceedsAU {
            max: 40,
            actual: 41
        }
    );
    assert_eq!(
        fail("0 0 1 0000 0110", 0),
        BlockError::OutputShiftTooLarge {
            index: 1,
            value: 6,
            max: 5,
            substream: 0
        }
    );
    assert_eq!(fail("1 0000", 0), BlockError::Bits(BitError::EndOfData));
    assert_eq!(fail("", 0), BlockError::Bits(BitError::EndOfData));
    assert_eq!(fail("0", 4), BlockError::InvalidSubstream { index: 4 });
}

#[test]
fn block_flags_say_which_headers_follow() {
    let flags = |bits: &str| {
        let data = bytes(bits);
        TestBlock::read_flags(&mut BitReader::new(&data))
    };
    let expected = |block_header, restart_header| {
        Ok(BlockFlags {
            block_header,
            restart_header,
        })
    };
    assert_eq!(flags("01"), expected(false, false));
    assert_eq!(flags("10"), expected(true, false));
    assert_eq!(flags("11"), expected(true, true));
    assert_eq!(flags(""), Err(BlockError::Bits(BitError::EndOfData)));
}

#[test]
fn plain_samples_are_centred_and_scaled() {
    let mut plain = substream();
    plain.lsb_bypass_used[0] = true;
    plain.quantiser_step_size[1] = 1;
    plain.huff_offset[1] = 2;
    // Each row: a bypassed LSB, four bits of channel 0, three of channel 1.
    let (block, position, _) = read(plain, "1 0000 111 0 1111 000").unwrap();
    assert_eq!(position, 16);
    assert_eq!(block.restart_header, Some("restart"));
    assert_eq!(block.bypassed_lsb[0][0], 1);
    assert_eq!(block.bypassed_lsb[1][0], 0);
    assert_eq!(block.block_data[0][..3], [-8, (7 - 4 + 2) * 2, 0]);
    assert_eq!(block.block_data[1][..3], [7, (-4 + 2) * 2, 0]);
    assert_eq!(block.block_data[2], [0; 16]);
    assert_eq!(block.block_data_bits, None);
}

#[test]
fn coded_samples_add_the_code_above_the_plain_bits() {
    let mut coded = substream();
    coded.max_chan = 0;
    coded.block_size = 1;
    coded.huff_type[0] = 3;
    coded.huff_lsbs[0] = 2;
    // Book 3 spells 2 by "1": 3 + (2 << 2) - (1 << 1).
    let (block, position, _) = read(coded, "1 11").unwrap();
    assert_eq!(position, 3);
    assert_eq!(block.block_data[0][0], 9);
    coded.huff_lsbs[0] = 0;
    // No plain bits: the shift of the bias is negative.
    let (block, _, _) = read(coded, "01").unwrap();
    assert_eq!(block.block_data[0][0], -1);
    coded.huff_type[0] = 1;
    // Book 1 spells 0 by "1", and the bias is 1 << 1.
    let (block, _, _) = read(coded, "1").unwrap();
    assert_eq!(block.block_data[0][0], -2);
}

#[test]
fn wide_streams_take_their_own_bypass_width_and_no_sample_checks() {
    let mut wide = substream();
    wide.restart_sync_word = 0x31EC;
    wide.lsb_bypass_bit_count[0] = 5;
    wide.max_chan = 0;
    wide.block_size = 1;
    wide.huff_lsbs[0] = 2;
    wide.huff_offset[0] = 0x80_0000;
    let (block, position, _) = read(wide, "10101 10").unwrap();
    assert_eq!(position, 7);
    assert_eq!(block.bypassed_lsb[0][0], 21);
    assert_eq!(block.block_data[0][0], 0x80_0000);
    wide.lsb_bypass_bit_count[0] = 9;
    assert_eq!(
        read(wide, "1010110000").unwrap_err(),
        BlockError::Bits(BitError::TooWide)
    );
}

#[test]
fn sample_errors_name_what_is_wrong() {
    let base = || {
        let mut one = substream();
        one.max_chan = 0;
        one.block_size = 1;
        one
    };
    let mut one = base();
    one.huff_lsbs[0] = 25;
    assert_eq!(
        read(one, "0").unwrap_err(),
        BlockError::HuffLsbsTooLarge {
            channel: 0,
            actual: 25,
            max: 24
        }
    );
    let mut one = base();
    one.quantiser_step_size[0] = 5;
    assert_eq!(read(one, "0").unwrap_err(), BlockError::QuantiserStepTooLarge);
    let mut one = base();
    one.huff_offset[0] = 0x80_0000 - 7;
    assert_eq!(
        read(one, "1111").unwrap_err(),
        BlockError::HuffmanPositiveSaturation
    );
    assert_eq!(read(one, "1110").unwrap().0.block_data[0][0], 0x7F_FFFF);
    let mut one = base();
    one.huff_offset[0] = -0x80_0000;
    assert_eq!(
        read(one, "0111").unwrap_err(),
        BlockError::HuffmanNegativeSaturation
    );
    assert_eq!(read(one, "1000").unwrap().0.block_data[0][0], -0x80_0000);
    let mut one = base();
    one.max_lsbs = 30;
    one.huff_lsbs[0] = 30;
    assert_eq!(
        read(one, "10 0000 0000 0000 0000 0000 0000 0000").unwrap_err(),
        BlockError::HuffmanSampleTooLong
    );
    let mut one = base();
    one.huff_type[0] = 1;
    assert_eq!(
        read(one, "0000").unwrap_err(),
        BlockError::Bits(BitError::UnknownCode)
    );
    let one = base();
    assert_eq!(
        read(one, "").unwrap_err(),
        BlockError::Bits(BitError::EndOfData)
    );
}

#[test]
fn protected_blocks_declare_their_length() {
    let mut protected = substream();
    protected.error_protect = true;
    protected.max_chan = 0;
    let bits = "0000000000001000 1000 1001 10100101";
    let (block, position, _) = read(protected, bits).unwrap();
    assert_eq!(block.block_data_bits, Some(8));
    assert_eq!(block.block_header_crc, 0xA5);
    assert_eq!(block.block_data[1][0], 1);
    assert_eq!(position, 32);
    let bits = "0000000000001001 1000 1001 10100101";
    assert_eq!(
        read(protected, bits).unwrap_err(),
        BlockError::BlockDataBitCountMismatch {
            expected: 9,
            actual: 8
        }
    );
    let bits = "0011111010000001";
    assert_eq!(
        read(protected, bits).unwrap_err(),
        BlockError::BlockDataBitsTooLarge(16_001)
    );
}

#[test]
fn the_first_block_of_an_access_unit_records_its_timing() {
    let mut first = substream();
    first.block_index = 0;
    first.output_timing_history[127] = 1000;
    let (_, _, after) = read(first, "0000 0000 0000 0000").unwrap();
    let recorded = &after.substream_state[0];
    // Two access units of 40 samples behind the major sync.
    assert_eq!(recorded.latency, 100);
    assert_eq!(recorded.prev_latency, 100);
    assert_eq!(recorded.output_timing_history[0], 1040);
    assert_eq!(recorded.substream_size_history[0], 100);
    assert_eq!(recorded.history_index, 1);
    assert_eq!(after.advance, 60);
    // A later block records nothing.
    let (_, _, after) = read(substream(), "0000 0000 0000 0000").unwrap();
    assert_eq!(after.substream_state[0].history_index, 0);
    assert_eq!(after.advance, 7);
}

#[test]
fn latency_rules_are_checked_in_turn() {
    let fail = |change: &dyn Fn(&mut ParserState)| {
        let mut state = state(substream());
        change(&mut state);
        update_timing(&mut state)
    };
    assert_eq!(fail(&|_| {}), Ok(()));
    assert_eq!(
        fail(&|state| state.substream_state[0].latency = 99),
        Err(BlockError::LatencyInconsistent { substream: 0 })
    );
    assert_eq!(
        fail(&|state| state.fifo_duration = 101),
        Err(BlockError::DurationExceedsLatency {
            duration: 101,
            latency: 100
        })
    );
    assert_eq!(
        fail(&|state| state.audio_sampling_frequency_1 = 1330),
        Ok(())
    );
    assert_eq!(
        fail(&|state| state.audio_sampling_frequency_1 = 1300),
        Err(BlockError::LatencyTooHigh {
            latency: 100,
            samples: 98
        })
    );
    assert_eq!(
        fail(&|state| {
            state.flags = 0;
            state.input_timing = 560;
            state.fifo_duration = 0;
        }),
        Err(BlockError::LatencyTooLow {
            latency: 20,
            au: 40
        })
    );
    // A laxer parser goes on.
    assert_eq!(
        fail(&|state| {
            state.fail_level = Level::Error;
            state.fifo_duration = 101;
        }),
        Ok(())
    );
    assert_eq!(
        fail(&|state| {
            let second = state.substream_state[0];
            state.substream_state.push(second);
            state.substream_state[1].substream_end_ptr = 49;
            state.substream_index = 1;
        }),
        Err(BlockError::SubstreamSizeUnderflow {
            substream: 1,
            end_ptr: 49,
            start_ptr: 50
        })
    );
}

fn decoder() -> DecoderState {
    DecoderState {
        samples_per_au: 40,
        substream_index: 0,
        substream_state: vec![DecoderSubstreamState {
            decoded_sample_len: 0,
            output_timing: 65_530,
            block_size: 1,
            output_shift: [9; 16],
            quantiser_step_size: [9; 16],
            bypassed_lsb: Box::new([[5; 16]; 160]),
            block_data: Box::new([[6; 16]; 160]),
        }],
    }
}

#[test]
fn headers_are_handed_to_the_decoder() {
    let mut decoder = decoder();
    let mut header = Header::new();
    header.update_decoder_state(&mut decoder).unwrap();
    let substream = &decoder.substream_state[0];
    assert_eq!(substream.block_size, 1);
    assert_eq!(substream.output_shift, [9; 16]);
    header.block_size = Some(2);
    header.output_shift[3] = Some(-1);
    header.quantiser_step_size[4] = Some(2);
    header.update_decoder_state(&mut decoder).unwrap();
    let substream = &decoder.substream_state[0];
    assert_eq!(substream.block_size, 2);
    assert_eq!(substream.output_shift[2..5], [9, -1, 9]);
    assert_eq!(substream.quantiser_step_size[3..6], [9, 2, 9]);
    assert_eq!(substream.output_timing, 65_530);
    assert!(header.has_odd_block_size());
    header.block_size = Some(40);
    assert!(!header.has_odd_block_size());
    decoder.substream_index = 1;
    let missing = Err(BlockError::InvalidSubstream { index: 1 });
    assert_eq!(header.update_decoder_state(&mut decoder), missing);
}

#[test]
fn blocks_are_handed_to_the_decoder() {
    let mut decoder = decoder();
    let mut block = TestBlock::default();
    let mut header = Header::new();
    header.block_size = Some(3);
    header.output_shift[0] = Some(4);
    block.block_header = Some(header);
    block.update_decoder_state(&mut decoder).unwrap();
    let substream = &decoder.substream_state[0];
    // The output timing wraps at sixteen bits.
    assert_eq!(substream.output_timing, 34);
    assert_eq!(substream.output_shift[..2], [4, 9]);
    // The rows are those of the new block size.
    assert_eq!(substream.block_size, 3);
    assert_eq!(substream.bypassed_lsb[2], [0; 16]);
    assert_eq!(substream.bypassed_lsb[3], [5; 16]);
    assert_eq!(substream.block_data[2], [0; 16]);
    assert_eq!(substream.block_data[3], [6; 16]);

    // Neither a restart nor a later block moves the timing on.
    let mut restarted = TestBlock::new();
    restarted.restart_header = Some("restart");
    restarted.update_decoder_state(&mut decoder).unwrap();
    assert_eq!(decoder.substream_state[0].output_timing, 34);
    decoder.substream_state[0].decoded_sample_len = 8;
    TestBlock::new().update_decoder_state(&mut decoder).unwrap();
    assert_eq!(decoder.substream_state[0].output_timing, 34);
    // A block size beyond the rows takes all of them.
    decoder.substream_state[0].block_size = 1000;
    TestBlock::new().update_decoder_state(&mut decoder).unwrap();
    assert_eq!(decoder.substream_state[0].block_data[159], [0; 16]);
    decoder.substream_index = 1;
    let missing = Err(BlockError::InvalidSubstream { index: 1 });
    assert_eq!(block.update_decoder_state(&mut decoder), missing);
}

/// Reads a whole block; each header reader takes one bit, and the block
/// header's also sets the block size to one.
fn read_whole(bits: &str, fails: bool) -> Result<(TestBlock, u64), BlockError> {
    let data = bytes(bits);
    let mut reader = BitReader::new(&data);
    let mut one = substream();
    one.max_chan = 0;
    let mut state = state(one);
    let block = TestBlock::read(
        &mut state,
        &mut reader,
        &books(),
        |_: &mut ParserState, reader: &mut BitReader| {
            reader.get().map_err(BlockError::Bits)?;
            Ok("restart")
        },
        |state: &mut ParserState, reader: &mut BitReader| {
            reader.get().map_err(BlockError::Bits)?;
            if fails {
                return Err(BlockError::InvalidBlockSizeRange(7));
            }
            state.substream_state[0].block_size = 1;
            let mut header = Header::new();
            header.block_size = Some(1);
            Ok(header)
        },
    )?;
    Ok((block, reader.position()))
}

#[test]
fn whole_blocks_have_the_headers_that_their_flags_announce() {
    let (block, position) = read_whole("0 1000 1001", false).unwrap();
    assert!(block.restart_header.is_none() && block.block_header.is_none());
    assert_eq!(position, 9);
    assert_eq!(block.block_data[1][0], 1);
    let (block, position) = read_whole("10 1 1001", false).unwrap();
    assert!(block.restart_header.is_none());
    assert_eq!(block.block_header.unwrap().block_size, Some(1));
    assert_eq!(position, 7);
    assert_eq!(block.block_data[0][0], 1);
    let (block, position) = read_whole("11 1 1 1111", false).unwrap();
    assert_eq!(block.restart_header, Some("restart"));
    assert!(block.block_header.is_some());
    assert_eq!(position, 8);
    assert_eq!(block.block_data[0][0], 7);
    assert_eq!(
        read_whole("10 1 1001", true).unwrap_err(),
        BlockError::InvalidBlockSizeRange(7)
    );
    assert_eq!(
        read_whole("", false).unwrap_err(),
        BlockError::Bits(BitError::EndOfData)
    );
}

#[test]
fn samples_of_checked_streams_stay_within_24_bits() {
    // Every pattern of four plain bits at both ends of the range.
    for value in 0..16 {
        for offset in [-0x80_0004, -0x80_0000, 0, 0x7F_FFF8, 0x80_0000] {
            let mut one = substream();
            one.max_chan = 0;
            one.block_size = 1;
            one.huff_offset[0] = offset;
            let expected = value - 8 + offset;
            match read(one, &format!("{value:04b}")) {
                Ok((block, _, _)) => assert_eq!(block.block_data[0][0], expected),
                Err(_) => assert!(!(-0x80_0000..0x80_0000).contains(&expected)),
            }
        }
    }
}

#[test]
fn headers_update_only_what_their_guards_allow() {
    // The same bits under every choice of guards.
    let bits = "1 000100000 1 0010 0011 1 0100 0101 0 0 0 0 0 0 0";
    for choice in 0..8u8 {
        let mut guarded = substream();
        guarded.guards = Guards {
            guards: false,
            block_size: choice & 1 != 0,
            matrixing: false,
            output_shift: choice & 2 != 0,
            quantiser_step_size: choice & 4 != 0,
        };
        let data = bytes(bits);
        let mut reader = BitReader::new(&data);
        let mut state = state(guarded);
        let mut header = Header::new();
        let _ = header.read_stage(&mut state, &mut reader, HeaderStage::Guards);
        let after = &state.substream_state[0];
        if choice & 1 == 0 {
            assert_eq!((header.block_size, after.block_size), (None, 2));
        } else {
            assert_eq!((header.block_size, after.block_size), (Some(32), 32));
        }
        if choice & 2 == 0 {
            assert_eq!(header.output_shift, [None; 16]);
            assert_eq!(after.output_shift, [0; 16]);
        }
        if choice & 4 == 0 {
            assert_eq!(header.quantiser_step_size, [None; 16]);
            assert_eq!(after.quantiser_step_size, [0; 16]);
        }
        for channel in 0..16 {
            if let Some(shift) = header.output_shift[channel] {
                assert_eq!(after.output_shift[channel], shift);
                assert!(shift <= 5);
            }
            if let Some(step) = header.quantiser_step_size[channel] {
                assert_eq!(after.quantiser_step_size[channel], step);
            }
        }
    }
}

type Part<'a, T> = (ParserSubstreamState, BitReader<'a>, Result<T, BlockError>);

/// Reads a whole header. New guards are one bit for each group, the matrixing
/// is two bits and the parameters of a channel are three.
fn read_whole_header<'a>(
    state: &mut ParserState,
    reader: &mut BitReader<'a>,
) -> Result<Header, BlockError> {
    let guards = |mut bits: BitReader<'a>| {
        let mut flags = [false; 5];
        for flag in flags.iter_mut() {
            match bits.get() {
                Ok(set) => *flag = set,
                Err(error) => return (bits, Err(BlockError::Bits(error))),
            }
        }
        let guards = Guards {
            guards: flags[0],
            block_size: flags[1],
            matrixing: flags[2],
            output_shift: flags[3],
            quantiser_step_size: flags[4],
        };
        (bits, Ok(guards))
    };
    let matrixing = |state: &ParserState, mut bits: BitReader<'a>| -> Part<'a, &'static str> {
        let mut substream = state.substream_state[state.substream_index];
        let found = bits.get_n(2).map_err(BlockError::Bits).map(|count| {
            substream.primitive_matrices = count as usize;
            "matrixing"
        });
        (substream, bits, found)
    };
    let channel = |state: &ParserState, mut bits: BitReader<'a>, channel: usize| -> Part<'a, u8> {
        let mut substream = state.substream_state[state.substream_index];
        let found = bits.get_n(3).map_err(BlockError::Bits).map(|lsbs| {
            substream.huff_lsbs[channel] = lsbs;
            lsbs as u8
        });
        (substream, bits, found)
    };
    Header::read(state, reader, &(guards, matrixing, channel))
}

#[test]
fn a_whole_header_is_taken_over_into_the_substream() {
    // New guards, all set; block size 40; matrixing 2; shifts 2, -1; steps 3,
    // 15; channel 0 without parameters and channel 1 with 5.
    let data = bytes("1 11111 1 000101000 1 10 1 0010 1111 1 0011 1111 0 1 101");
    let mut reader = BitReader::new(&data);
    let mut state = state(substream());
    let header = read_whole_header(&mut state, &mut reader).unwrap();
    assert_eq!(reader.position(), 42);
    assert_eq!(header.guards, None);
    assert_eq!(header.block_size, Some(40));
    assert_eq!(header.matrixing, Some("matrixing"));
    assert_eq!(header.output_shift[..3], [Some(2), Some(-1), None]);
    assert_eq!(header.quantiser_step_size[..3], [Some(3), Some(15), None]);
    assert_eq!(header.channel_params[..3], [None, Some(5), None]);
    let after = &state.substream_state[0];
    assert_eq!(after.block_size, 40);
    assert_eq!(after.primitive_matrices, 2);
    assert_eq!(after.output_shift[..3], [2, -1, 0]);
    assert_eq!(after.quantiser_step_size[..3], [3, 15, 0]);
    assert_eq!(after.huff_lsbs[..3], [4, 5, 4]);
}

#[test]
fn a_header_sets_all_shifts_and_steps_or_none() {
    for choice in 0..16u8 {
        let bit = |index: u8| if choice >> index & 1 == 1 { "1" } else { "0" };
        let mut bits = "0".to_string();
        bits.push_str(bit(0));
        if choice & 1 != 0 {
            bits.push_str("000010000");
        }
        bits.push_str("0");
        bits.push_str(bit(1));
        if choice & 2 != 0 {
            bits.push_str("0001 0010 0011");
        }
        bits.push_str(bit(2));
        if choice & 4 != 0 {
            bits.push_str("1111 1110 1101 1100");
        }
        // Of the channels 2 and 3, the second has parameters or has not.
        bits.push_str("0");
        bits.push_str(bit(3));
        if choice & 8 != 0 {
            bits.push_str("111");
        }
        let mut wide = substream();
        wide.min_chan = 2;
        wide.max_chan = 3;
        wide.max_matrix_chan = 2;
        let data = bytes(&bits);
        let mut reader = BitReader::new(&data);
        let mut state = state(wide);
        let header = read_whole_header(&mut state, &mut reader).unwrap();
        let after = &state.substream_state[0];
        let size = if choice & 1 != 0 { Some(16) } else { None };
        assert_eq!(header.block_size, size);
        assert_eq!(after.block_size, size.unwrap_or(2));
        let mut shifts = [None; 16];
        if choice & 2 != 0 {
            shifts[..3].copy_from_slice(&[Some(1), Some(2), Some(3)]);
        }
        assert_eq!(header.output_shift, shifts);
        assert_eq!(after.output_shift, shifts.map(|shift| shift.unwrap_or(0)));
        let mut steps = [None; 16];
        if choice & 4 != 0 {
            steps[..4].copy_from_slice(&[Some(15), Some(14), Some(13), Some(12)]);
        }
        assert_eq!(header.quantiser_step_size, steps);
        assert_eq!(after.quantiser_step_size, steps.map(|step| step.unwrap_or(0)));
        for channel in 0..16 {
            let set = channel == 3 && choice & 8 != 0;
            assert_eq!(header.channel_params[channel], if set { Some(7) } else { None });
        }
    }
}

#[test]
fn a_header_that_fails_leaves_what_it_had_taken_over() {
    let fail = |bits: &str| {
        let data = bytes(bits);
        let mut reader = BitReader::new(&data);
        let mut state = state(substream());
        let error = read_whole_header(&mut state, &mut reader).unwrap_err();
        (error, state.substream_state[0])
    };
    // The second shift is too large; the size and the first shift stay.
    let (error, after) = fail("0 1 000010000 0 1 0011 0110");
    assert_eq!(
        error,
        BlockError::OutputShiftTooLarge {
            index: 1,
            value: 6,
            max: 5,
            substream: 0
        }
    );
    assert_eq!(after.block_size, 16);
    assert_eq!(after.output_shift[..2], [3, 0]);
    // The data ends in the parameters of a channel.
    let (error, after) = fail("0 0 0 1 0011 0100 0 0 1 1");
    assert_eq!(error, BlockError::Bits(BitError::EndOfData));
    assert_eq!(after.output_shift[..2], [3, 4]);
    // Without a substream nothing is read.
    let mut reader = BitReader::new(&[]);
    let mut empty = state(substream());
    empty.substream_state.clear();
    assert_eq!(
        read_whole_header(&mut empty, &mut reader).unwrap_err(),
        BlockError::InvalidSubstream { index: 0 }
    );
}
