//! Handing of parsed blocks to the decoder.
//!
//! A restart header, a matrixing and channel parameters have a syntax of their
//! own and take themselves over. All else of a block is taken over here: the
//! output timing, then the block header, and last the rows that the decoder
//! will read.

use crate::truehd::block::{Block, BlockHeader};
use crate::truehd::errors::BlockError;
use vstd::prelude::*;

verus! {

/// What the decoder knows of one substream.
#[derive(Debug)]
pub struct DecoderSubstreamState {
    pub decoded_sample_len: usize,
    pub output_timing: u16,
    pub block_size: usize,
    pub output_shift: [i8; 16],
    pub quantiser_step_size: [u32; 16],
    pub bypassed_lsb: Box<[[i32; 16]; 160]>,
    pub block_data: Box<[[i32; 16]; 160]>,
}

/// What the decoder knows of the stream.
#[derive(Debug)]
pub struct DecoderState {
    pub samples_per_au: usize,
    pub substream_index: usize,
    pub substream_state: Vec<DecoderSubstreamState>,
}

impl DecoderState {
    /// Whether the substream being decoded has a state.
    pub open spec fn has_substream(&self) -> bool {
        self.substream_index < self.substream_state@.len()
    }

    /// The state of the substream being decoded.
    pub open spec fn substream(&self) -> DecoderSubstreamState {
        self.substream_state@[self.substream_index as int]
    }

    /// The error given where the substream being decoded has no state.
    pub open spec fn missing_substream(&self) -> BlockError {
        BlockError::InvalidSubstream { index: self.substream_index }
    }

    /// Nothing but the substream being decoded differs from `other`, and a
    /// missing substream leaves everything as it was.
    pub open spec fn changes_only_substream(&self, other: &DecoderState) -> bool {
        &&& self.samples_per_au == other.samples_per_au
        &&& self.substream_index == other.substream_index
        &&& self.substream_state@ =~= if other.has_substream() {
            other.substream_state@.update(other.substream_index as int, self.substream())
        } else {
            other.substream_state@
        }
    }
}

/// What an update returns: an error exactly where the substream is missing.
pub open spec fn update_result(state: &DecoderState) -> Result<(), BlockError> {
    if state.has_substream() {
        Ok(())
    } else {
        Err(state.missing_substream())
    }
}

/// `old` with the entries that `new` holds.
pub open spec fn merged<T>(old: Seq<T>, new: Seq<Option<T>>) -> Seq<T> {
    Seq::new(
        old.len(),
        |index: int|
            match new[index] {
                Some(value) => value,
                None => old[index],
            },
    )
}

/// The first `count` rows of `new`, and the others of `old`.
pub open spec fn with_rows(
    old: Seq<[i32; 16]>,
    new: Seq<[i32; 16]>,
    count: int,
) -> Seq<[i32; 16]> {
    Seq::new(
        old.len(),
        |row: int|
            if row < count {
                new[row]
            } else {
                old[row]
            },
    )
}

/// `values` with the entries that `updates` holds.
fn merge<T: Copy>(values: &mut [T; 16], updates: &[Option<T>; 16])
    ensures
        final(values)@ == merged(old(values)@, updates@),
{
    let mut index: usize = 0;
    while index < 16
        invariant
            index <= 16,
            forall|seen: int|
                0 <= seen < index ==> #[trigger] values@[seen] == merged(
                    old(values)@,
                    updates@,
                )[seen],
            forall|ahead: int| index <= ahead < 16 ==> values@[ahead] == old(values)@[ahead],
        decreases 16 - index,
    {
        if let Some(value) = updates[index] {
            values[index] = value;
        }
        index = index + 1;
    }
    assert(values@ =~= merged(old(values)@, updates@));
}

/// Copies the first `count` rows of `source` to `target`.
fn copy_rows(target: &mut [[i32; 16]; 160], source: &[[i32; 16]; 160], count: usize)
    requires
        count <= 160,
    ensures
        final(target)@ == with_rows(old(target)@, source@, count as int),
{
    let mut row: usize = 0;
    while row < count
        invariant
            row <= count <= 160,
            target@ == with_rows(old(target)@, source@, row as int),
        decreases count - row,
    {
        target[row] = source[row];
        assert(target@ =~= with_rows(old(target)@, source@, row + 1));
        row = row + 1;
    }
}

/// The block size once a header is taken over.
pub open spec fn size_after<M, P>(before: usize, header: Option<BlockHeader<M, P>>) -> usize {
    match header {
        Some(header) => match header.block_size {
            Some(size) => size,
            None => before,
        },
        None => before,
    }
}

/// The output timing once a block is taken over: it goes on by an access unit,
/// modulo 65536, with the first block of one that does not restart the decoder.
pub open spec fn timing_after(
    before: DecoderSubstreamState,
    samples_per_au: usize,
    restarts: bool,
) -> u16 {
    if !restarts && before.decoded_sample_len == 0 {
        ((before.output_timing + samples_per_au) % 0x1_0000) as u16
    } else {
        before.output_timing
    }
}

/// A header was taken over: the block size, the output shifts and the step sizes
/// that it sets.
pub open spec fn header_handed_over<M, P>(
    header: BlockHeader<M, P>,
    state_before: DecoderState,
    state_after: DecoderState,
    result: Result<(), BlockError>,
) -> bool {
    &&& state_after.changes_only_substream(&state_before)
    &&& result == update_result(&state_before)
    &&& state_before.has_substream() ==> {
        let before = state_before.substream();
        let after = state_after.substream();
        &&& after == (DecoderSubstreamState {
            block_size: size_after(before.block_size, Some(header)),
            output_shift: after.output_shift,
            quantiser_step_size: after.quantiser_step_size,
            ..before
        })
        &&& after.output_shift@ == merged(before.output_shift@, header.output_shift@)
        &&& after.quantiser_step_size@ == merged(
            before.quantiser_step_size@,
            header.quantiser_step_size@,
        )
    }
}

/// A block was taken over: the output timing went on, its header was taken over,
/// and its rows were handed to the decoder.
pub open spec fn block_handed_over<R, M, P>(
    block: Block<R, M, P>,
    state_before: DecoderState,
    state_after: DecoderState,
    result: Result<(), BlockError>,
) -> bool {
    &&& state_after.changes_only_substream(&state_before)
    &&& result == update_result(&state_before)
    &&& state_before.has_substream() ==> {
        let before = state_before.substream();
        let after = state_after.substream();
        let size = size_after(before.block_size, block.block_header);
        &&& after == (DecoderSubstreamState {
            output_timing: timing_after(
                before,
                state_before.samples_per_au,
                block.restart_header is Some,
            ),
            block_size: size,
            output_shift: after.output_shift,
            quantiser_step_size: after.quantiser_step_size,
            bypassed_lsb: after.bypassed_lsb,
            block_data: after.block_data,
            ..before
        })
        &&& match block.block_header {
            Some(header) => {
                &&& after.output_shift@ == merged(before.output_shift@, header.output_shift@)
                &&& after.quantiser_step_size@ == merged(
                    before.quantiser_step_size@,
                    header.quantiser_step_size@,
                )
            },
            None => {
                &&& after.output_shift == before.output_shift
                &&& after.quantiser_step_size == before.quantiser_step_size
            },
        }
        &&& after.bypassed_lsb@ == with_rows(
            before.bypassed_lsb@,
            block.bypassed_lsb@,
            size as int,
        )
        &&& after.block_data@ == with_rows(before.block_data@, block.block_data@, size as int)
    }
}

impl<M, P> BlockHeader<M, P> {
    /// Takes the block size, the output shifts and the quantiser step sizes
    /// over.
    pub fn update_decoder_state(&self, state: &mut DecoderState) -> (result: Result<
        (),
        BlockError,
    >)
        ensures
            header_handed_over(*self, *old(state), *final(state), result),
    {
        let index: usize = state.substream_index;
        if index >= state.substream_state.len() {
            return Err(BlockError::InvalidSubstream { index });
        }
        let substream = &mut state.substream_state[index];
        if let Some(block_size) = self.block_size {
            substream.block_size = block_size;
        }
        merge(&mut substream.output_shift, &self.output_shift);
        merge(&mut substream.quantiser_step_size, &self.quantiser_step_size);
        Ok(())
    }
}

impl<R, M, P> Block<R, M, P> {
    /// Takes a block over: the output timing goes on at the start of an access
    /// unit that does not restart the decoder, the block header is taken over,
    /// and the rows that the decoder will read, those of its own block size, are
    /// handed to it.
    pub fn update_decoder_state(&self, state: &mut DecoderState) -> (result: Result<
        (),
        BlockError,
    >)
        ensures
            block_handed_over(*self, *old(state), *final(state), result),
    {
        let index: usize = state.substream_index;
        if index >= state.substream_state.len() {
            return Err(BlockError::InvalidSubstream { index });
        }
        if self.restart_header.is_none() && state.substream_state[index].decoded_sample_len == 0 {
            let samples: u16 = (state.samples_per_au % 0x1_0000) as u16;
            let timing: u16 = state.substream_state[index].output_timing;
            state.substream_state[index].output_timing = timing.wrapping_add(samples);
        }
        if let Some(block_header) = &self.block_header {
            if let Err(error) = block_header.update_decoder_state(state) {
                return Err(error);
            }
        }
        let substream = &mut state.substream_state[index];
        let count: usize = if substream.block_size < 160 {
            substream.block_size
        } else {
            160
        };
        copy_rows(&mut substream.bypassed_lsb, &self.bypassed_lsb, count);
        copy_rows(&mut substream.block_data, &self.block_data, count);
        proof {
            let before = old(state).substream();
            let size = size_after(before.block_size, self.block_header) as int;
            assert(state.substream().bypassed_lsb@ =~= with_rows(
                before.bypassed_lsb@,
                self.bypassed_lsb@,
                size,
            ));
            assert(state.substream().block_data@ =~= with_rows(
                before.block_data@,
                self.block_data@,
                size,
            ));
        }
        Ok(())
    }
}

} // verus!
