//! Channel names of the formats, and the labels that the renderer places.

use crate::eac3::types::BedChannel;
use vstd::prelude::*;

verus! {

/// Where the renderer places a channel.
#[derive(Debug, Clone, Copy, PartialEq, Eq, Structural)]
pub enum RChannelLabel {
    L,
    R,
    C,
    LFE,
    Ls,
    Rs,
    Tfl,
    Tfr,
    Tsl,
    Tsr,
    Tbl,
    Tbr,
    Lsc,
    Rsc,
    Lb,
    Rb,
    Cb,
    Tc,
    Lsd,
    Rsd,
    Lw,
    Rw,
    Tfc,
    LFE2,
    AuroL,
    AuroR,
    AuroC,
    AuroLs,
    AuroRs,
    AuroLb,
    AuroRb,
    AuroHl,
    AuroHr,
    AuroHc,
    AuroT,
    AuroHls,
    AuroHrs,
    Object,
    Unknown,
}

/// Channels of a TrueHD presentation.
#[derive(Debug, Clone, Copy, PartialEq, Eq, Structural)]
pub enum ChannelLabel {
    L,
    R,
    C,
    LFE,
    Ls,
    Rs,
    Tfl,
    Tfr,
    Tsl,
    Tsr,
    Tbl,
    Tbr,
    Lsc,
    Rsc,
    Lb,
    Rb,
    Cb,
    Tc,
    Lsd,
    Rsd,
    Lw,
    Rw,
    Tfc,
    LFE2,
}

/// Channels of a DTS bed.
#[derive(Debug, Clone, Copy, PartialEq, Eq, Structural)]
pub enum DcaBedChannel {
    FrontLeft,
    FrontRight,
    Center,
    LowFrequencyEffects,
    SurroundLeft,
    SurroundRight,
    RearCenter,
    RearLeft,
    RearRight,
    WideLeft,
    WideRight,
}

/// Fixed channels of a DTS:X extension.
#[derive(Debug, Clone, Copy, PartialEq, Eq, Structural)]
pub enum SpatialChannel {
    TopFrontLeft,
    TopFrontRight,
    TopFrontCenter,
    TopSideLeft,
    TopSideRight,
    TopBackLeft,
    TopBackRight,
    WideLeft,
    WideRight,
}

/// Renderer label of a TrueHD channel.
pub open spec fn truehd_label(label: ChannelLabel) -> RChannelLabel {
    match label {
        ChannelLabel::L => RChannelLabel::L,
        ChannelLabel::R => RChannelLabel::R,
        ChannelLabel::C => RChannelLabel::C,
        ChannelLabel::LFE => RChannelLabel::LFE,
        ChannelLabel::Ls => RChannelLabel::Ls,
        ChannelLabel::Rs => RChannelLabel::Rs,
        ChannelLabel::Tfl => RChannelLabel::Tfl,
        ChannelLabel::Tfr => RChannelLabel::Tfr,
        ChannelLabel::Tsl => RChannelLabel::Tsl,
        ChannelLabel::Tsr => RChannelLabel::Tsr,
        ChannelLabel::Tbl => RChannelLabel::Tbl,
        ChannelLabel::Tbr => RChannelLabel::Tbr,
        ChannelLabel::Lsc => RChannelLabel::Lsc,
        ChannelLabel::Rsc => RChannelLabel::Rsc,
        ChannelLabel::Lb => RChannelLabel::Lb,
        ChannelLabel::Rb => RChannelLabel::Rb,
        ChannelLabel::Cb => RChannelLabel::Cb,
        ChannelLabel::Tc => RChannelLabel::Tc,
        ChannelLabel::Lsd => RChannelLabel::Lsd,
        ChannelLabel::Rsd => RChannelLabel::Rsd,
        ChannelLabel::Lw => RChannelLabel::Lw,
        ChannelLabel::Rw => RChannelLabel::Rw,
        ChannelLabel::Tfc => RChannelLabel::Tfc,
        ChannelLabel::LFE2 => RChannelLabel::LFE2,
    }
}

/// Renderer label of a TrueHD channel.
pub fn channel_label_to_r(channel: ChannelLabel) -> (label: RChannelLabel)
    ensures
        label == truehd_label(channel),
{
    match channel {
        ChannelLabel::L => RChannelLabel::L,
        ChannelLabel::R => RChannelLabel::R,
        ChannelLabel::C => RChannelLabel::C,
        ChannelLabel::LFE => RChannelLabel::LFE,
        ChannelLabel::Ls => RChannelLabel::Ls,
        ChannelLabel::Rs => RChannelLabel::Rs,
        ChannelLabel::Tfl => RChannelLabel::Tfl,
        ChannelLabel::Tfr => RChannelLabel::Tfr,
        ChannelLabel::Tsl => RChannelLabel::Tsl,
        ChannelLabel::Tsr => RChannelLabel::Tsr,
        ChannelLabel::Tbl => RChannelLabel::Tbl,
        ChannelLabel::Tbr => RChannelLabel::Tbr,
        ChannelLabel::Lsc => RChannelLabel::Lsc,
        ChannelLabel::Rsc => RChannelLabel::Rsc,
        ChannelLabel::Lb => RChannelLabel::Lb,
        ChannelLabel::Rb => RChannelLabel::Rb,
        ChannelLabel::Cb => RChannelLabel::Cb,
        ChannelLabel::Tc => RChannelLabel::Tc,
        ChannelLabel::Lsd => RChannelLabel::Lsd,
        ChannelLabel::Rsd => RChannelLabel::Rsd,
        ChannelLabel::Lw => RChannelLabel::Lw,
        ChannelLabel::Rw => RChannelLabel::Rw,
        ChannelLabel::Tfc => RChannelLabel::Tfc,
        ChannelLabel::LFE2 => RChannelLabel::LFE2,
    }
}

/// Renderer label of a DTS bed channel. DTS core beds cover the 5.1 and 7.1
/// layouts.
pub open spec fn dca_bed_label(channel: DcaBedChannel) -> RChannelLabel {
    match channel {
        DcaBedChannel::FrontLeft => RChannelLabel::L,
        DcaBedChannel::FrontRight => RChannelLabel::R,
        DcaBedChannel::Center => RChannelLabel::C,
        DcaBedChannel::LowFrequencyEffects => RChannelLabel::LFE,
        DcaBedChannel::SurroundLeft => RChannelLabel::Ls,
        DcaBedChannel::SurroundRight => RChannelLabel::Rs,
        DcaBedChannel::RearCenter => RChannelLabel::Cb,
        DcaBedChannel::RearLeft => RChannelLabel::Lb,
        DcaBedChannel::RearRight => RChannelLabel::Rb,
        DcaBedChannel::WideLeft => RChannelLabel::Lw,
        DcaBedChannel::WideRight => RChannelLabel::Rw,
    }
}

/// Renderer label of a DTS bed channel. DTS core beds cover the 5.1 and 7.1
/// layouts.
pub fn dca_bed_channel_to_r(channel: DcaBedChannel) -> (label: RChannelLabel)
    ensures
        label == dca_bed_label(channel),
{
    match channel {
        DcaBedChannel::FrontLeft => RChannelLabel::L,
        DcaBedChannel::FrontRight => RChannelLabel::R,
        DcaBedChannel::Center => RChannelLabel::C,
        DcaBedChannel::LowFrequencyEffects => RChannelLabel::LFE,
        DcaBedChannel::SurroundLeft => RChannelLabel::Ls,
        DcaBedChannel::SurroundRight => RChannelLabel::Rs,
        DcaBedChannel::RearCenter => RChannelLabel::Cb,
        DcaBedChannel::RearLeft => RChannelLabel::Lb,
        DcaBedChannel::RearRight => RChannelLabel::Rb,
        DcaBedChannel::WideLeft => RChannelLabel::Lw,
        DcaBedChannel::WideRight => RChannelLabel::Rw,
    }
}

/// Renderer label of a DTS:X extension channel.
pub open spec fn dca_spatial_label(channel: SpatialChannel) -> RChannelLabel {
    match channel {
        SpatialChannel::TopFrontLeft => RChannelLabel::Tfl,
        SpatialChannel::TopFrontRight => RChannelLabel::Tfr,
        SpatialChannel::TopFrontCenter => RChannelLabel::Tfc,
        SpatialChannel::TopSideLeft => RChannelLabel::Tsl,
        SpatialChannel::TopSideRight => RChannelLabel::Tsr,
        SpatialChannel::TopBackLeft => RChannelLabel::Tbl,
        SpatialChannel::TopBackRight => RChannelLabel::Tbr,
        SpatialChannel::WideLeft => RChannelLabel::Lw,
        SpatialChannel::WideRight => RChannelLabel::Rw,
    }
}

/// Renderer label of a DTS:X extension channel.
pub fn dca_spatial_channel_to_r(channel: SpatialChannel) -> (label: RChannelLabel)
    ensures
        label == dca_spatial_label(channel),
{
    match channel {
        SpatialChannel::TopFrontLeft => RChannelLabel::Tfl,
        SpatialChannel::TopFrontRight => RChannelLabel::Tfr,
        SpatialChannel::TopFrontCenter => RChannelLabel::Tfc,
        SpatialChannel::TopSideLeft => RChannelLabel::Tsl,
        SpatialChannel::TopSideRight => RChannelLabel::Tsr,
        SpatialChannel::TopBackLeft => RChannelLabel::Tbl,
        SpatialChannel::TopBackRight => RChannelLabel::Tbr,
        SpatialChannel::WideLeft => RChannelLabel::Lw,
        SpatialChannel::WideRight => RChannelLabel::Rw,
    }
}

/// Renderer label of an E-AC-3 bed channel.
pub open spec fn bed_label(channel: BedChannel) -> RChannelLabel {
    match channel {
        BedChannel::FrontLeft => RChannelLabel::L,
        BedChannel::FrontRight => RChannelLabel::R,
        BedChannel::Center => RChannelLabel::C,
        BedChannel::LowFrequencyEffects => RChannelLabel::LFE,
        BedChannel::SurroundLeft => RChannelLabel::Ls,
        BedChannel::SurroundRight => RChannelLabel::Rs,
        BedChannel::RearCenter => RChannelLabel::Cb,
        BedChannel::RearLeft => RChannelLabel::Lb,
        BedChannel::RearRight => RChannelLabel::Rb,
        BedChannel::TopFrontLeft => RChannelLabel::Tfl,
        BedChannel::TopFrontRight => RChannelLabel::Tfr,
        BedChannel::TopSurroundLeft => RChannelLabel::Tsl,
        BedChannel::TopSurroundRight => RChannelLabel::Tsr,
        BedChannel::TopRearLeft => RChannelLabel::Tbl,
        BedChannel::TopRearRight => RChannelLabel::Tbr,
        BedChannel::WideLeft => RChannelLabel::Lw,
        BedChannel::WideRight => RChannelLabel::Rw,
        BedChannel::LowFrequencyEffects2 => RChannelLabel::LFE2,
    }
}

/// Renderer label of an E-AC-3 bed channel.
pub fn bed_channel_to_r(channel: BedChannel) -> (label: RChannelLabel)
    ensures
        label == bed_label(channel),
{
    match channel {
        BedChannel::FrontLeft => RChannelLabel::L,
        BedChannel::FrontRight => RChannelLabel::R,
        BedChannel::Center => RChannelLabel::C,
        BedChannel::LowFrequencyEffects => RChannelLabel::LFE,
        BedChannel::SurroundLeft => RChannelLabel::Ls,
        BedChannel::SurroundRight => RChannelLabel::Rs,
        BedChannel::RearCenter => RChannelLabel::Cb,
        BedChannel::RearLeft => RChannelLabel::Lb,
        BedChannel::RearRight => RChannelLabel::Rb,
        BedChannel::TopFrontLeft => RChannelLabel::Tfl,
        BedChannel::TopFrontRight => RChannelLabel::Tfr,
        BedChannel::TopSurroundLeft => RChannelLabel::Tsl,
        BedChannel::TopSurroundRight => RChannelLabel::Tsr,
        BedChannel::TopRearLeft => RChannelLabel::Tbl,
        BedChannel::TopRearRight => RChannelLabel::Tbr,
        BedChannel::WideLeft => RChannelLabel::Lw,
        BedChannel::WideRight => RChannelLabel::Rw,
        BedChannel::LowFrequencyEffects2 => RChannelLabel::LFE2,
    }
}

/// Renderer label of an OAMD bed-assignment speaker.
pub open spec fn oamd_label(speaker_index: usize) -> RChannelLabel {
    match speaker_index {
        0 => RChannelLabel::L,
        1 => RChannelLabel::R,
        2 => RChannelLabel::C,
        3 => RChannelLabel::LFE,
        4 => RChannelLabel::Ls,
        5 => RChannelLabel::Rs,
        6 => RChannelLabel::Lb,
        7 => RChannelLabel::Rb,
        8 => RChannelLabel::Tfl,
        9 => RChannelLabel::Tfr,
        10 => RChannelLabel::Tsl,
        11 => RChannelLabel::Tsr,
        12 => RChannelLabel::Tbl,
        13 => RChannelLabel::Tbr,
        14 => RChannelLabel::Lw,
        15 => RChannelLabel::Rw,
        16 => RChannelLabel::LFE2,
        _ => RChannelLabel::Unknown,
    }
}

/// Renderer label of an OAMD bed-assignment speaker.
pub fn oamd_speaker_to_label(speaker_index: usize) -> (label: RChannelLabel)
    ensures
        label == oamd_label(speaker_index),
{
    match speaker_index {
        0 => RChannelLabel::L,
        1 => RChannelLabel::R,
        2 => RChannelLabel::C,
        3 => RChannelLabel::LFE,
        4 => RChannelLabel::Ls,
        5 => RChannelLabel::Rs,
        6 => RChannelLabel::Lb,
        7 => RChannelLabel::Rb,
        8 => RChannelLabel::Tfl,
        9 => RChannelLabel::Tfr,
        10 => RChannelLabel::Tsl,
        11 => RChannelLabel::Tsr,
        12 => RChannelLabel::Tbl,
        13 => RChannelLabel::Tbr,
        14 => RChannelLabel::Lw,
        15 => RChannelLabel::Rw,
        16 => RChannelLabel::LFE2,
        _ => RChannelLabel::Unknown,
    }
}

/// Renderer label of an Auro stream.
/// 
/// Auro is a layout before it is a codec and places every speaker itself, so its
/// streams have labels of their own. The LFE and the centre surround keep the
/// shared ones: no document gives them an angle. Stream 15, the second top, is
/// left unlabelled: nothing public says which of the pair it is.
pub open spec fn auro_label(stream: u8) -> RChannelLabel {
    match stream {
        0 => RChannelLabel::AuroL,
        1 => RChannelLabel::AuroR,
        2 => RChannelLabel::AuroC,
        3 => RChannelLabel::LFE,
        4 => RChannelLabel::AuroLs,
        5 => RChannelLabel::AuroRs,
        6 => RChannelLabel::Cb,
        7 => RChannelLabel::AuroLb,
        8 => RChannelLabel::AuroRb,
        9 => RChannelLabel::AuroHl,
        10 => RChannelLabel::AuroHr,
        11 => RChannelLabel::AuroHc,
        12 => RChannelLabel::AuroT,
        13 => RChannelLabel::AuroHls,
        14 => RChannelLabel::AuroHrs,
        _ => RChannelLabel::Unknown,
    }
}

/// Renderer label of an Auro stream.
/// 
/// Auro is a layout before it is a codec and places every speaker itself, so its
/// streams have labels of their own. The LFE and the centre surround keep the
/// shared ones: no document gives them an angle. Stream 15, the second top, is
/// left unlabelled: nothing public says which of the pair it is.
pub fn auro_stream_to_r(stream: u8) -> (label: RChannelLabel)
    ensures
        label == auro_label(stream),
{
    match stream {
        0 => RChannelLabel::AuroL,
        1 => RChannelLabel::AuroR,
        2 => RChannelLabel::AuroC,
        3 => RChannelLabel::LFE,
        4 => RChannelLabel::AuroLs,
        5 => RChannelLabel::AuroRs,
        6 => RChannelLabel::Cb,
        7 => RChannelLabel::AuroLb,
        8 => RChannelLabel::AuroRb,
        9 => RChannelLabel::AuroHl,
        10 => RChannelLabel::AuroHr,
        11 => RChannelLabel::AuroHc,
        12 => RChannelLabel::AuroT,
        13 => RChannelLabel::AuroHls,
        14 => RChannelLabel::AuroHrs,
        _ => RChannelLabel::Unknown,
    }
}

/// Renderer label of a DCA speaker index, for the DTS-HD bed.
pub open spec fn dts_speaker_label(speaker: usize) -> RChannelLabel {
    match speaker {
        0 => RChannelLabel::C,
        1 => RChannelLabel::L,
        2 => RChannelLabel::R,
        3 => RChannelLabel::Ls,
        4 => RChannelLabel::Rs,
        5 => RChannelLabel::LFE,
        6 => RChannelLabel::Cb,
        7 => RChannelLabel::Lb,
        8 => RChannelLabel::Rb,
        _ => RChannelLabel::Unknown,
    }
}

/// Renderer label of a DCA speaker index, for the DTS-HD bed.
pub fn speaker_to_label(speaker: usize) -> (label: RChannelLabel)
    ensures
        label == dts_speaker_label(speaker),
{
    match speaker {
        0 => RChannelLabel::C,
        1 => RChannelLabel::L,
        2 => RChannelLabel::R,
        3 => RChannelLabel::Ls,
        4 => RChannelLabel::Rs,
        5 => RChannelLabel::LFE,
        6 => RChannelLabel::Cb,
        7 => RChannelLabel::Lb,
        8 => RChannelLabel::Rb,
        _ => RChannelLabel::Unknown,
    }
}

/// No two TrueHD channels share a label.
pub proof fn truehd_labels_are_distinct(left: ChannelLabel, right: ChannelLabel)
    requires
        truehd_label(left) == truehd_label(right),
    ensures
        left == right,
{
}

/// No two DTS bed channels share a label.
pub proof fn dca_bed_labels_are_distinct(left: DcaBedChannel, right: DcaBedChannel)
    requires
        dca_bed_label(left) == dca_bed_label(right),
    ensures
        left == right,
{
}

/// No two DTS:X extension channels share a label.
pub proof fn dca_spatial_labels_are_distinct(left: SpatialChannel, right: SpatialChannel)
    requires
        dca_spatial_label(left) == dca_spatial_label(right),
    ensures
        left == right,
{
}

/// No two E-AC-3 bed channels share a label.
pub proof fn bed_labels_are_distinct(left: BedChannel, right: BedChannel)
    requires
        bed_label(left) == bed_label(right),
    ensures
        left == right,
{
}

/// No two OAMD speakers share a label.
pub proof fn oamd_labels_are_distinct(left: usize, right: usize)
    requires
        left < 17,
        right < 17,
        oamd_label(left) == oamd_label(right),
    ensures
        left == right,
{
}

/// No two labelled Auro streams share a label.
pub proof fn auro_labels_are_distinct(left: u8, right: u8)
    requires
        left < 15,
        right < 15,
        auro_label(left) == auro_label(right),
    ensures
        left == right,
{
}

/// No two DCA speakers share a label.
pub proof fn dts_speaker_labels_are_distinct(left: usize, right: usize)
    requires
        left < 9,
        right < 9,
        dts_speaker_label(left) == dts_speaker_label(right),
    ensures
        left == right,
{
}

/// A DTS bed channel and the E-AC-3 bed channel of the same place have the same
/// label, so a renderer places both alike.
pub proof fn beds_agree_on_labels()
    ensures
        dca_bed_label(DcaBedChannel::FrontLeft) == bed_label(BedChannel::FrontLeft),
        dca_bed_label(DcaBedChannel::FrontRight) == bed_label(BedChannel::FrontRight),
        dca_bed_label(DcaBedChannel::Center) == bed_label(BedChannel::Center),
        dca_bed_label(DcaBedChannel::LowFrequencyEffects) == bed_label(BedChannel::LowFrequencyEffects),
        dca_bed_label(DcaBedChannel::SurroundLeft) == bed_label(BedChannel::SurroundLeft),
        dca_bed_label(DcaBedChannel::SurroundRight) == bed_label(BedChannel::SurroundRight),
        dca_bed_label(DcaBedChannel::RearCenter) == bed_label(BedChannel::RearCenter),
        dca_bed_label(DcaBedChannel::RearLeft) == bed_label(BedChannel::RearLeft),
        dca_bed_label(DcaBedChannel::RearRight) == bed_label(BedChannel::RearRight),
        dca_bed_label(DcaBedChannel::WideLeft) == bed_label(BedChannel::WideLeft),
        dca_bed_label(DcaBedChannel::WideRight) == bed_label(BedChannel::WideRight),
{
}

} // verus!
