//! Errors of block parsing.

use crate::truehd::bits::BitError;
use vstd::prelude::*;

verus! {

/// Why a block could not be parsed.
#[allow(inconsistent_fields)]
#[derive(Debug, Clone, Copy, PartialEq, Eq, Structural)]
pub enum BlockError {
    Bits(BitError),
    InvalidSubstream { index: usize },
    InvalidBlockSizeRange(usize),
    BlockSizeExceedsAU { max: usize, actual: usize },
    OutputShiftTooLarge { index: usize, value: i8, max: i8, substream: usize },
    BlockDataBitsTooLarge(u16),
    LatencyInconsistent { substream: usize },
    DurationExceedsLatency { duration: usize, latency: usize },
    LatencyTooHigh { latency: usize, samples: u32 },
    LatencyTooLow { latency: usize, au: usize },
    SubstreamSizeUnderflow { substream: usize, end_ptr: u16, start_ptr: u16 },
    HuffLsbsTooLarge { channel: usize, actual: usize, max: usize },
    QuantiserStepTooLarge,
    HuffmanPositiveSaturation,
    HuffmanNegativeSaturation,
    HuffmanSampleTooLong,
    BlockDataBitCountMismatch { expected: u16, actual: u64 },
}

} // verus!
