//! Laws of labels: a channel of any format is labelled by the place in the room
//! that its name says.

use crate::bridge::auro_stage::stream_of_speaker;
use crate::bridge::labels::{
    auro_label, bed_label, dca_bed_label, dca_spatial_label, dts_speaker_label, oamd_label,
    truehd_label, ChannelLabel, DcaBedChannel, RChannelLabel, SpatialChannel,
};
use crate::eac3::types::BedChannel;
use vstd::prelude::*;

verus! {

/// Left, the middle or right of the listener.
pub enum Side {
    Left,
    Middle,
    Right,
}

/// From the screen to behind the listener.
pub enum Row {
    Front,
    Screen,
    Wide,
    Surround,
    Direct,
    Back,
}

/// Below or above the listener. What has no place plays below.
pub enum Layer {
    Low,
    LowSecond,
    Ear,
    Height,
    Top,
}

/// A place in the room.
pub struct Place {
    pub side: Side,
    pub row: Row,
    pub layer: Layer,
}

/// A place at the height of the ears.
pub open spec fn at_ear(side: Side, row: Row) -> Option<Place> {
    Some(Place { side, row, layer: Layer::Ear })
}

/// A place above the listener.
pub open spec fn above(side: Side, row: Row) -> Option<Place> {
    Some(Place { side, row, layer: Layer::Height })
}

/// The first low-frequency channel.
pub open spec fn low() -> Option<Place> {
    Some(Place { side: Side::Middle, row: Row::Front, layer: Layer::Low })
}

/// The second low-frequency channel.
pub open spec fn second_low() -> Option<Place> {
    Some(Place { side: Side::Middle, row: Row::Front, layer: Layer::LowSecond })
}

/// Whether Auro places a label.
pub open spec fn is_auro(label: RChannelLabel) -> bool {
    match label {
        RChannelLabel::AuroL | RChannelLabel::AuroR | RChannelLabel::AuroC => true,
        RChannelLabel::AuroLs | RChannelLabel::AuroRs => true,
        RChannelLabel::AuroLb | RChannelLabel::AuroRb => true,
        RChannelLabel::AuroHl | RChannelLabel::AuroHr | RChannelLabel::AuroHc => true,
        RChannelLabel::AuroT | RChannelLabel::AuroHls | RChannelLabel::AuroHrs => true,
        _ => false,
    }
}

/// The place that a label stands for.
pub open spec fn place_of_label(label: RChannelLabel) -> Option<Place> {
    match label {
        RChannelLabel::L | RChannelLabel::AuroL => at_ear(Side::Left, Row::Front),
        RChannelLabel::R | RChannelLabel::AuroR => at_ear(Side::Right, Row::Front),
        RChannelLabel::C | RChannelLabel::AuroC => at_ear(Side::Middle, Row::Front),
        RChannelLabel::LFE => low(),
        RChannelLabel::LFE2 => second_low(),
        RChannelLabel::Ls | RChannelLabel::AuroLs => at_ear(Side::Left, Row::Surround),
        RChannelLabel::Rs | RChannelLabel::AuroRs => at_ear(Side::Right, Row::Surround),
        RChannelLabel::Lb | RChannelLabel::AuroLb => at_ear(Side::Left, Row::Back),
        RChannelLabel::Rb | RChannelLabel::AuroRb => at_ear(Side::Right, Row::Back),
        RChannelLabel::Cb => at_ear(Side::Middle, Row::Back),
        RChannelLabel::Lsc => at_ear(Side::Left, Row::Screen),
        RChannelLabel::Rsc => at_ear(Side::Right, Row::Screen),
        RChannelLabel::Lsd => at_ear(Side::Left, Row::Direct),
        RChannelLabel::Rsd => at_ear(Side::Right, Row::Direct),
        RChannelLabel::Lw => at_ear(Side::Left, Row::Wide),
        RChannelLabel::Rw => at_ear(Side::Right, Row::Wide),
        RChannelLabel::Tfl | RChannelLabel::AuroHl => above(Side::Left, Row::Front),
        RChannelLabel::Tfr | RChannelLabel::AuroHr => above(Side::Right, Row::Front),
        RChannelLabel::Tfc | RChannelLabel::AuroHc => above(Side::Middle, Row::Front),
        RChannelLabel::Tsl | RChannelLabel::AuroHls => above(Side::Left, Row::Surround),
        RChannelLabel::Tsr | RChannelLabel::AuroHrs => above(Side::Right, Row::Surround),
        RChannelLabel::Tbl => above(Side::Left, Row::Back),
        RChannelLabel::Tbr => above(Side::Right, Row::Back),
        RChannelLabel::Tc => above(Side::Middle, Row::Surround),
        RChannelLabel::AuroT => Some(
            Place { side: Side::Middle, row: Row::Surround, layer: Layer::Top },
        ),
        RChannelLabel::Object | RChannelLabel::Unknown => None,
    }
}

/// The place that a TrueHD channel is named for.
pub open spec fn place_of_truehd(channel: ChannelLabel) -> Option<Place> {
    match channel {
        ChannelLabel::L => at_ear(Side::Left, Row::Front),
        ChannelLabel::R => at_ear(Side::Right, Row::Front),
        ChannelLabel::C => at_ear(Side::Middle, Row::Front),
        ChannelLabel::LFE => low(),
        ChannelLabel::LFE2 => second_low(),
        ChannelLabel::Ls => at_ear(Side::Left, Row::Surround),
        ChannelLabel::Rs => at_ear(Side::Right, Row::Surround),
        ChannelLabel::Lb => at_ear(Side::Left, Row::Back),
        ChannelLabel::Rb => at_ear(Side::Right, Row::Back),
        ChannelLabel::Cb => at_ear(Side::Middle, Row::Back),
        ChannelLabel::Lsc => at_ear(Side::Left, Row::Screen),
        ChannelLabel::Rsc => at_ear(Side::Right, Row::Screen),
        ChannelLabel::Lsd => at_ear(Side::Left, Row::Direct),
        ChannelLabel::Rsd => at_ear(Side::Right, Row::Direct),
        ChannelLabel::Lw => at_ear(Side::Left, Row::Wide),
        ChannelLabel::Rw => at_ear(Side::Right, Row::Wide),
        ChannelLabel::Tfl => above(Side::Left, Row::Front),
        ChannelLabel::Tfr => above(Side::Right, Row::Front),
        ChannelLabel::Tfc => above(Side::Middle, Row::Front),
        ChannelLabel::Tsl => above(Side::Left, Row::Surround),
        ChannelLabel::Tsr => above(Side::Right, Row::Surround),
        ChannelLabel::Tbl => above(Side::Left, Row::Back),
        ChannelLabel::Tbr => above(Side::Right, Row::Back),
        ChannelLabel::Tc => above(Side::Middle, Row::Surround),
    }
}

/// The place that a DTS bed channel is named for.
pub open spec fn place_of_dca_bed(channel: DcaBedChannel) -> Option<Place> {
    match channel {
        DcaBedChannel::FrontLeft => at_ear(Side::Left, Row::Front),
        DcaBedChannel::FrontRight => at_ear(Side::Right, Row::Front),
        DcaBedChannel::Center => at_ear(Side::Middle, Row::Front),
        DcaBedChannel::LowFrequencyEffects => low(),
        DcaBedChannel::SurroundLeft => at_ear(Side::Left, Row::Surround),
        DcaBedChannel::SurroundRight => at_ear(Side::Right, Row::Surround),
        DcaBedChannel::RearCenter => at_ear(Side::Middle, Row::Back),
        DcaBedChannel::RearLeft => at_ear(Side::Left, Row::Back),
        DcaBedChannel::RearRight => at_ear(Side::Right, Row::Back),
        DcaBedChannel::WideLeft => at_ear(Side::Left, Row::Wide),
        DcaBedChannel::WideRight => at_ear(Side::Right, Row::Wide),
    }
}

/// The place that a DTS:X channel is named for.
pub open spec fn place_of_spatial(channel: SpatialChannel) -> Option<Place> {
    match channel {
        SpatialChannel::TopFrontLeft => above(Side::Left, Row::Front),
        SpatialChannel::TopFrontRight => above(Side::Right, Row::Front),
        SpatialChannel::TopFrontCenter => above(Side::Middle, Row::Front),
        SpatialChannel::TopSideLeft => above(Side::Left, Row::Surround),
        SpatialChannel::TopSideRight => above(Side::Right, Row::Surround),
        SpatialChannel::TopBackLeft => above(Side::Left, Row::Back),
        SpatialChannel::TopBackRight => above(Side::Right, Row::Back),
        SpatialChannel::WideLeft => at_ear(Side::Left, Row::Wide),
        SpatialChannel::WideRight => at_ear(Side::Right, Row::Wide),
    }
}

/// The place that an E-AC-3 bed channel is named for.
pub open spec fn place_of_bed(channel: BedChannel) -> Option<Place> {
    match channel {
        BedChannel::FrontLeft => at_ear(Side::Left, Row::Front),
        BedChannel::FrontRight => at_ear(Side::Right, Row::Front),
        BedChannel::Center => at_ear(Side::Middle, Row::Front),
        BedChannel::LowFrequencyEffects => low(),
        BedChannel::LowFrequencyEffects2 => second_low(),
        BedChannel::SurroundLeft => at_ear(Side::Left, Row::Surround),
        BedChannel::SurroundRight => at_ear(Side::Right, Row::Surround),
        BedChannel::RearCenter => at_ear(Side::Middle, Row::Back),
        BedChannel::RearLeft => at_ear(Side::Left, Row::Back),
        BedChannel::RearRight => at_ear(Side::Right, Row::Back),
        BedChannel::TopFrontLeft => above(Side::Left, Row::Front),
        BedChannel::TopFrontRight => above(Side::Right, Row::Front),
        BedChannel::TopSurroundLeft => above(Side::Left, Row::Surround),
        BedChannel::TopSurroundRight => above(Side::Right, Row::Surround),
        BedChannel::TopRearLeft => above(Side::Left, Row::Back),
        BedChannel::TopRearRight => above(Side::Right, Row::Back),
        BedChannel::WideLeft => at_ear(Side::Left, Row::Wide),
        BedChannel::WideRight => at_ear(Side::Right, Row::Wide),
    }
}

/// A label stands for one place, and no other label of the same system does.
pub proof fn places_tell_labels_apart(left: RChannelLabel, right: RChannelLabel)
    requires
        place_of_label(left) is Some,
        place_of_label(left) == place_of_label(right),
        is_auro(left) == is_auro(right),
    ensures
        left == right,
{
}

/// A TrueHD channel is labelled by the place that it is named for.
pub proof fn truehd_channels_keep_their_place(channel: ChannelLabel)
    ensures
        place_of_label(truehd_label(channel)) == place_of_truehd(channel),
        !is_auro(truehd_label(channel)),
{
}

/// A DTS bed channel is labelled by the place that it is named for.
pub proof fn dca_bed_channels_keep_their_place(channel: DcaBedChannel)
    ensures
        place_of_label(dca_bed_label(channel)) == place_of_dca_bed(channel),
        !is_auro(dca_bed_label(channel)),
{
}

/// A DTS:X channel is labelled by the place that it is named for.
pub proof fn spatial_channels_keep_their_place(channel: SpatialChannel)
    ensures
        place_of_label(dca_spatial_label(channel)) == place_of_spatial(channel),
        !is_auro(dca_spatial_label(channel)),
{
}

/// An E-AC-3 bed channel is labelled by the place that it is named for.
pub proof fn bed_channels_keep_their_place(channel: BedChannel)
    ensures
        place_of_label(bed_label(channel)) == place_of_bed(channel),
        !is_auro(bed_label(channel)),
{
}

/// The speakers of an OAMD bed come in pairs, left before right, but for the
/// centre and the low-frequency channels: front, surround, back, then the same
/// above, and wide.
pub proof fn oamd_speakers_come_in_pairs(pair: int)
    requires
        0 <= pair,
        2 * pair + 1 <= usize::MAX,
    ensures
        ({
            let left = place_of_label(oamd_label((2 * pair) as usize));
            let right = place_of_label(oamd_label((2 * pair + 1) as usize));
            if pair == 0 {
                left == at_ear(Side::Left, Row::Front) && right == at_ear(Side::Right, Row::Front)
            } else if pair == 1 {
                left == at_ear(Side::Middle, Row::Front) && right == low()
            } else if pair == 2 {
                left == at_ear(Side::Left, Row::Surround) && right == at_ear(
                    Side::Right,
                    Row::Surround,
                )
            } else if pair == 3 {
                left == at_ear(Side::Left, Row::Back) && right == at_ear(Side::Right, Row::Back)
            } else if pair == 4 {
                left == above(Side::Left, Row::Front) && right == above(Side::Right, Row::Front)
            } else if pair == 5 {
                left == above(Side::Left, Row::Surround) && right == above(
                    Side::Right,
                    Row::Surround,
                )
            } else if pair == 6 {
                left == above(Side::Left, Row::Back) && right == above(Side::Right, Row::Back)
            } else if pair == 7 {
                left == at_ear(Side::Left, Row::Wide) && right == at_ear(Side::Right, Row::Wide)
            } else if pair == 8 {
                left == second_low() && right is None
            } else {
                left is None && right is None
            }
        }),
        !is_auro(oamd_label((2 * pair) as usize)),
        !is_auro(oamd_label((2 * pair + 1) as usize)),
{
}

/// The speakers of a DTS-HD bed: the centre, the front pair, the surround pair,
/// the low-frequency channel, the back centre and the back pair. Any other one
/// has no place.
pub proof fn dts_speakers_keep_their_place(speaker: usize)
    ensures
        place_of_label(dts_speaker_label(speaker)) == if speaker == 0 {
            at_ear(Side::Middle, Row::Front)
        } else if speaker == 1 || speaker == 2 {
            at_ear(
                if speaker == 1 {
                    Side::Left
                } else {
                    Side::Right
                },
                Row::Front,
            )
        } else if speaker == 3 || speaker == 4 {
            at_ear(
                if speaker == 3 {
                    Side::Left
                } else {
                    Side::Right
                },
                Row::Surround,
            )
        } else if speaker == 5 {
            low()
        } else if speaker == 6 {
            at_ear(Side::Middle, Row::Back)
        } else if speaker == 7 || speaker == 8 {
            at_ear(
                if speaker == 7 {
                    Side::Left
                } else {
                    Side::Right
                },
                Row::Back,
            )
        } else {
            None
        },
        !is_auro(dts_speaker_label(speaker)),
        speaker > 8 ==> dts_speaker_label(speaker) == RChannelLabel::Unknown,
{
}

/// A speaker of a carrier plays as the Auro stream of its own place, and every
/// stream that Auro places has an Auro label.
pub proof fn carrier_speakers_keep_their_place(speaker: usize)
    ensures
        speaker <= 8 ==> place_of_label(auro_label(stream_of_speaker(speaker))) == place_of_label(
            dts_speaker_label(speaker),
        ),
        speaker <= 8 && speaker != 5 && speaker != 6 ==> is_auro(
            auro_label(stream_of_speaker(speaker)),
        ),
        speaker > 8 ==> auro_label(stream_of_speaker(speaker)) == RChannelLabel::Unknown,
{
}

/// The streams above the floor: left, right and the middle in front, the top, and
/// left and right of the listener.
pub proof fn overhead_streams_keep_their_place(stream: u8)
    requires
        stream >= 9,
    ensures
        place_of_label(auro_label(stream)) == if stream == 9 {
            above(Side::Left, Row::Front)
        } else if stream == 10 {
            above(Side::Right, Row::Front)
        } else if stream == 11 {
            above(Side::Middle, Row::Front)
        } else if stream == 12 {
            Some(Place { side: Side::Middle, row: Row::Surround, layer: Layer::Top })
        } else if stream == 13 {
            above(Side::Left, Row::Surround)
        } else if stream == 14 {
            above(Side::Right, Row::Surround)
        } else {
            None
        },
        stream <= 14 ==> is_auro(auro_label(stream)),
{
}

} // verus!
