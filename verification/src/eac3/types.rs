//! Types that the stages of E-AC-3 decoding share.

use vstd::prelude::*;

verus! {

/// Channels of an E-AC-3 bed.
#[derive(Debug, Clone, Copy, PartialEq, Eq, Structural)]
pub enum BedChannel {
    FrontLeft,
    FrontRight,
    Center,
    LowFrequencyEffects,
    SurroundLeft,
    SurroundRight,
    RearCenter,
    RearLeft,
    RearRight,
    TopFrontLeft,
    TopFrontRight,
    TopSurroundLeft,
    TopSurroundRight,
    TopRearLeft,
    TopRearRight,
    WideLeft,
    WideRight,
    LowFrequencyEffects2,
}

/// Why an access unit could not be decoded.
#[derive(Debug, Clone, Copy)]
pub enum ParseError {
    /// A field has a value that the syntax does not allow.
    InvalidHeader(&'static str),
    /// The stream uses a feature that is not decoded.
    UnsupportedFeature(&'static str),
    /// The access unit is shorter than it says.
    TruncatedFrame { expected: usize, available: usize },
    /// The access unit is longer than it says.
    TrailingData { expected: usize, provided: usize },
}

/// Coded mixing parameters of an object.
#[derive(Debug)]
pub enum JocObjectData {
    /// Per data point and channel, the differences from band to band.
    Dense { matrices: Vec<Vec<Vec<u16>>> },
    /// Per data point, one channel and one value for each band.
    Sparse { channel_indices: Vec<Vec<u8>>, vectors: Vec<Vec<u16>> },
}

/// One object of a JOC payload.
#[derive(Debug)]
pub struct JocObject {
    pub active: bool,
    pub bands_index: Option<u8>,
    pub bands: usize,
    pub sparse_coded: bool,
    pub quantization_table: Option<u8>,
    pub steep_slope: bool,
    pub data_points: usize,
    pub timeslot_offsets: Vec<u8>,
    pub data: Option<JocObjectData>,
}

/// A JOC payload. `G` is the type of its gain.
#[derive(Debug)]
pub struct JocPayload<G> {
    pub downmix_config: u8,
    pub channel_count: usize,
    pub object_count: usize,
    pub gain: G,
    pub sequence_counter: u16,
    pub objects: Vec<JocObject>,
}

/// Number of channels of the downmix that a configuration index declares: the
/// five of L, R, C, Ls and Rs, or seven.
pub open spec fn downmix_channels(downmix_config: u8) -> Option<int> {
    if downmix_config == 0 || downmix_config == 3 {
        Some(5)
    } else if downmix_config == 1 || downmix_config == 2 || downmix_config == 4 {
        Some(7)
    } else {
        None
    }
}

impl<G> JocPayload<G> {
    /// Number of channels of the downmix that the payload declares, against
    /// which its matrices were computed.
    pub fn declared_channels(&self) -> (count: Option<usize>)
        ensures
            match count {
                Some(channels) => downmix_channels(self.downmix_config) == Some(channels as int),
                None => downmix_channels(self.downmix_config) is None,
            },
    {
        match self.downmix_config {
            0 | 3 => Some(5),
            1 | 2 | 4 => Some(7),
            _ => None,
        }
    }
}

} // verus!
