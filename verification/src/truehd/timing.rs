//! Latency checks and timing history, kept up once per access unit.

use crate::level::{stops, Level};
use crate::truehd::errors::BlockError;
use crate::truehd::state::{ParserState, ParserSubstreamState};
use vstd::prelude::*;

verus! {

/// Whether this block is the one that carries the timing of its access unit:
/// the first block of the first substream.
pub open spec fn is_timing_block(state: &ParserState) -> bool {
    !state.has_parsed_substream && state.substream().block_index == 0
}

/// Samples from the last major sync to this access unit.
pub open spec fn sample_offset(state: &ParserState) -> int {
    (state.au_counter - state.last_major_sync_index) * state.samples_per_au
}

/// Latency of this access unit, in samples modulo 65536.
pub open spec fn current_latency(state: &ParserState) -> int {
    (sample_offset(state) + state.output_timing - state.input_timing) % 0x1_0000
}

/// Whether the latency may differ from that of the access unit before.
pub open spec fn latency_may_change(state: &ParserState) -> bool {
    state.flags & 0x8000 == 0 || !state.has_parsed_au
}

/// The latency that the limits are held against.
pub open spec fn reference_latency(state: &ParserState) -> int {
    if latency_may_change(state) {
        current_latency(state)
    } else {
        state.substream().latency as int
    }
}

/// Number of samples in 75 ms, rounded up.
pub open spec fn samples_per_75ms(state: &ParserState) -> int {
    (state.audio_sampling_frequency_1 * 3 + 39) / 40
}

/// The first latency rule that this access unit breaks.
pub open spec fn latency_finding(state: &ParserState) -> Option<BlockError> {
    let latency = current_latency(state);
    let reference = reference_latency(state);
    if !latency_may_change(state) && reference != latency {
        Some(BlockError::LatencyInconsistent { substream: state.substream_index })
    } else if state.fifo_duration > reference {
        Some(
            BlockError::DurationExceedsLatency {
                duration: state.fifo_duration,
                latency: latency as usize,
            },
        )
    } else if (reference as usize) as u32 > samples_per_75ms(state) {
        Some(
            BlockError::LatencyTooHigh {
                latency: reference as usize,
                samples: samples_per_75ms(state) as u32,
            },
        )
    } else if reference < state.samples_per_au {
        Some(BlockError::LatencyTooLow { latency: reference as usize, au: state.samples_per_au })
    } else {
        None
    }
}

/// The broken latency rule that stops the parser, if one does.
pub open spec fn latency_error(state: &ParserState) -> Option<BlockError> {
    if stops(state.fail_level, Level::Warn) {
        latency_finding(state)
    } else {
        None
    }
}

/// Unwrapped output timing of this access unit.
pub open spec fn unwrapped_output_timing(state: &ParserState) -> int {
    if !state.has_parsed_au {
        state.output_timing as int
    } else {
        state.substream().output_timing_history@[(state.substream().history_index + 127) % 128]
            + state.samples_per_au
    }
}

/// Where the substream being parsed starts, in 16-bit words.
pub open spec fn substream_start(state: &ParserState) -> u16 {
    if state.substream_index == 0 {
        0
    } else {
        state.substream_state@[state.substream_index - 1].substream_end_ptr
    }
}

/// Whether the substream ends before it starts.
pub open spec fn size_underflows(state: &ParserState) -> bool {
    state.substream().substream_end_ptr < substream_start(state)
}

/// The machine limits that the timing sums stay within.
pub open spec fn timing_fits(state: &ParserState) -> bool {
    &&& state.au_counter >= state.last_major_sync_index
    &&& sample_offset(state) <= usize::MAX
    &&& state.audio_sampling_frequency_1 * 3 <= u32::MAX
    &&& state.substream().history_index < 128
    &&& unwrapped_output_timing(state) <= usize::MAX
}

/// What the timing update returns.
pub open spec fn timing_result(state: &ParserState) -> Result<(), BlockError> {
    match latency_error(state) {
        Some(error) => Err(error),
        None => if size_underflows(state) {
            Err(
                BlockError::SubstreamSizeUnderflow {
                    substream: state.substream_index,
                    end_ptr: state.substream().substream_end_ptr,
                    start_ptr: substream_start(state),
                },
            )
        } else {
            Ok(())
        },
    }
}

/// The timing advance after the update.
pub open spec fn next_advance(state: &ParserState) -> usize {
    if state.is_major_sync {
        state.advance
    } else {
        (current_latency(state) as usize).wrapping_sub(state.samples_per_au)
    }
}

/// The substream states agree in everything but timing.
pub open spec fn same_but_timing(left: ParserSubstreamState, right: ParserSubstreamState) -> bool {
    ParserSubstreamState {
        latency: right.latency,
        prev_latency: right.prev_latency,
        history_index: right.history_index,
        output_timing_history: right.output_timing_history,
        substream_size_history: right.substream_size_history,
        ..left
    } == right
}

/// `after` is the substream state that the timing update leaves.
pub open spec fn timing_recorded(state: &ParserState, after: ParserSubstreamState) -> bool {
    let before = state.substream();
    let index = before.history_index as int;
    let size = 2 * (before.substream_end_ptr - substream_start(state));
    &&& same_but_timing(before, after)
    &&& after.latency == current_latency(state)
    &&& after.prev_latency == before.latency
    &&& after.output_timing_history@ == if latency_error(state) is None {
        before.output_timing_history@.update(index, unwrapped_output_timing(state) as usize)
    } else {
        before.output_timing_history@
    }
    &&& after.substream_size_history@ == if timing_result(state) is Ok {
        before.substream_size_history@.update(index, size as usize)
    } else {
        before.substream_size_history@
    }
    &&& after.history_index == if timing_result(state) is Ok {
        (index + 1) % 128
    } else {
        index
    }
}

/// `(a + b - c)` modulo 65536, computed by wrapping.
fn wrapped_latency(a: usize, b: usize, c: usize) -> (latency: usize)
    ensures
        latency == (a + b - c) % 0x1_0000,
{
    let wrapped: usize = a.wrapping_add(b).wrapping_sub(c);
    let latency: usize = wrapped & 0xFFFF;
    assert(wrapped & 0xFFFF == wrapped % 0x1_0000) by (bit_vector);
    proof {
        let whole: int = usize::MAX + 1;
        assert(whole == 0x1_0000_0000 || whole == 0x1_0000_0000_0000_0000);
        assert(wrapped == a + b - c || wrapped == a + b - c - whole || wrapped == a + b - c + whole);
    }
    latency
}

/// Takes over the timing of an access unit: the latency is checked and
/// recorded, and the histories gain one entry.
pub fn update_timing(state: &mut ParserState) -> (result: Result<(), BlockError>)
    requires
        old(state).has_substream(),
        timing_fits(old(state)),
    ensures
        result == timing_result(old(state)),
        final(state).same_stream(old(state)),
        final(state).advance == next_advance(old(state)),
        timing_recorded(old(state), final(state).substream()),
        final(state).substream_state@ == old(state).substream_state@.update(
            old(state).substream_index as int,
            final(state).substream(),
        ),
{
    let index: usize = state.substream_index;
    let au_offset: usize = state.au_counter - state.last_major_sync_index;
    let samples_per_au: usize = state.samples_per_au;
    let offset: usize = au_offset * samples_per_au;
    let previous: usize = state.substream_state[index].latency;
    let latency: usize = wrapped_latency(offset, state.output_timing, state.input_timing);
    state.substream_state[index].prev_latency = previous;
    state.substream_state[index].latency = latency;
    if !state.is_major_sync {
        state.advance = latency.wrapping_sub(samples_per_au);
    }
    let stopped: bool = state.fail_level.stops_at(Level::Warn);
    let may_change: bool = state.flags & 0x8000 == 0 || !state.has_parsed_au;
    let reference: usize = if may_change {
        latency
    } else {
        previous
    };
    if !may_change && previous != latency && stopped {
        return Err(BlockError::LatencyInconsistent { substream: index });
    }
    if state.fifo_duration > reference && stopped {
        return Err(
            BlockError::DurationExceedsLatency { duration: state.fifo_duration, latency },
        );
    }
    let tripled: u32 = state.audio_sampling_frequency_1 * 3;
    let samples: u32 = tripled / 40 + if tripled % 40 == 0 {
        0
    } else {
        1
    };
    if reference as u32 > samples && stopped {
        return Err(BlockError::LatencyTooHigh { latency: reference, samples });
    }
    if reference < samples_per_au && stopped {
        return Err(BlockError::LatencyTooLow { latency: reference, au: samples_per_au });
    }
    let slot: usize = state.substream_state[index].history_index;
    let output_timing: usize = if !state.has_parsed_au {
        state.output_timing
    } else {
        let before: usize = (slot + 127) % 128;
        state.substream_state[index].output_timing_history[before] + samples_per_au
    };
    state.substream_state[index].output_timing_history[slot] = output_timing;
    let end_ptr: u16 = state.substream_state[index].substream_end_ptr;
    let start_ptr: u16 = if index == 0 {
        0
    } else {
        state.substream_state[index - 1].substream_end_ptr
    };
    if end_ptr < start_ptr {
        return Err(BlockError::SubstreamSizeUnderflow { substream: index, end_ptr, start_ptr });
    }
    let size: usize = (end_ptr - start_ptr) as usize;
    state.substream_state[index].substream_size_history[slot] = 2 * size;
    state.substream_state[index].history_index = (slot + 1) % 128;
    Ok(())
}

} // verus!
