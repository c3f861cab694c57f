//! State that a TrueHD parser and decoder carry from block to block.

use crate::level::Level;
use crate::truehd::errors::BlockError;
use vstd::prelude::*;

verus! {

/// Which parameter groups a block header may change.
#[derive(Debug, Clone, Copy, PartialEq, Eq, Structural)]
pub struct Guards {
    pub guards: bool,
    pub block_size: bool,
    pub matrixing: bool,
    pub output_shift: bool,
    pub quantiser_step_size: bool,
}

/// A parameter group of the block header.
#[derive(Debug, Clone, Copy, PartialEq, Eq, Structural)]
pub enum GuardsField {
    Guards,
    BlockSize,
    Matrixing,
    OutputShift,
    QuantiserStepSize,
}

impl Guards {
    /// Whether the guards let the header change `field`.
    pub open spec fn allows(&self, field: GuardsField) -> bool {
        match field {
            GuardsField::Guards => self.guards,
            GuardsField::BlockSize => self.block_size,
            GuardsField::Matrixing => self.matrixing,
            GuardsField::OutputShift => self.output_shift,
            GuardsField::QuantiserStepSize => self.quantiser_step_size,
        }
    }

    /// Whether the guards let the header change `field`.
    pub fn need_change(&self, field: GuardsField) -> (changes: bool)
        ensures
            changes == self.allows(field),
    {
        match field {
            GuardsField::Guards => self.guards,
            GuardsField::BlockSize => self.block_size,
            GuardsField::Matrixing => self.matrixing,
            GuardsField::OutputShift => self.output_shift,
            GuardsField::QuantiserStepSize => self.quantiser_step_size,
        }
    }
}

/// What the parser knows of one substream.
#[derive(Debug, Clone, Copy)]
pub struct ParserSubstreamState {
    pub restart_sync_word: u16,
    pub min_chan: usize,
    pub max_chan: usize,
    pub max_matrix_chan: usize,
    pub max_shift: i8,
    pub max_lsbs: u32,
    pub error_protect: bool,
    pub guards: Guards,
    pub block_index: usize,
    pub block_size: usize,
    pub primitive_matrices: usize,
    pub output_shift: [i8; 16],
    pub quantiser_step_size: [u32; 16],
    pub huff_offset: [i32; 16],
    pub huff_lsbs: [u32; 16],
    pub huff_type: [usize; 16],
    pub lsb_bypass_used: [bool; 16],
    pub lsb_bypass_bit_count: [u8; 16],
    pub latency: usize,
    pub prev_latency: usize,
    pub substream_end_ptr: u16,
    pub history_index: usize,
    pub output_timing_history: [usize; 128],
    pub substream_size_history: [usize; 128],
}

/// What the parser knows of the stream.
#[derive(Debug)]
pub struct ParserState {
    pub fail_level: Level,
    pub samples_per_au: usize,
    pub substream_index: usize,
    pub has_parsed_substream: bool,
    pub has_parsed_au: bool,
    pub is_major_sync: bool,
    pub au_counter: usize,
    pub last_major_sync_index: usize,
    pub output_timing: usize,
    pub input_timing: usize,
    pub advance: usize,
    pub flags: u16,
    pub fifo_duration: usize,
    pub audio_sampling_frequency_1: u32,
    pub substream_state: Vec<ParserSubstreamState>,
}

impl ParserState {
    /// Whether the substream being parsed has a state.
    pub open spec fn has_substream(&self) -> bool {
        self.substream_index < self.substream_state@.len()
    }

    /// The state of the substream being parsed.
    pub open spec fn substream(&self) -> ParserSubstreamState {
        self.substream_state@[self.substream_index as int]
    }

    /// The error given where the substream being parsed has no state.
    pub open spec fn missing_substream(&self) -> BlockError {
        BlockError::InvalidSubstream { index: self.substream_index }
    }

    /// Everything but the substreams and the timing advance is as in `other`.
    pub open spec fn same_stream(&self, other: &ParserState) -> bool {
        &&& self.fail_level == other.fail_level
        &&& self.samples_per_au == other.samples_per_au
        &&& self.substream_index == other.substream_index
        &&& self.has_parsed_substream == other.has_parsed_substream
        &&& self.has_parsed_au == other.has_parsed_au
        &&& self.is_major_sync == other.is_major_sync
        &&& self.au_counter == other.au_counter
        &&& self.last_major_sync_index == other.last_major_sync_index
        &&& self.output_timing == other.output_timing
        &&& self.input_timing == other.input_timing
        &&& self.flags == other.flags
        &&& self.fifo_duration == other.fifo_duration
        &&& self.audio_sampling_frequency_1 == other.audio_sampling_frequency_1
    }

    /// The state of the substream being parsed.
    pub fn substream_state(&self) -> (result: Result<&ParserSubstreamState, BlockError>)
        ensures
            match result {
                Ok(substream) => self.has_substream() && *substream == self.substream(),
                Err(error) => !self.has_substream() && error == self.missing_substream(),
            },
    {
        if self.substream_index < self.substream_state.len() {
            Ok(&self.substream_state[self.substream_index])
        } else {
            Err(BlockError::InvalidSubstream { index: self.substream_index })
        }
    }
}

} // verus!
