use harletty::bridge::labels::{
    bed_channel_to_r, channel_label_to_r, dca_bed_channel_to_r, dca_spatial_channel_to_r,
    oamd_speaker_to_label, speaker_to_label, ChannelLabel, DcaBedChannel, RChannelLabel,
    SpatialChannel,
};
use harletty::eac3::types::BedChannel;

#[test]
fn speakers_have_the_labels_of_their_places() {
    assert_eq!(channel_label_to_r(ChannelLabel::L), RChannelLabel::L);
    assert_eq!(channel_label_to_r(ChannelLabel::LFE), RChannelLabel::LFE);
    assert_eq!(
        dca_bed_channel_to_r(DcaBedChannel::Center),
        RChannelLabel::C
    );
    assert_eq!(
        dca_spatial_channel_to_r(SpatialChannel::TopFrontLeft),
        RChannelLabel::Tfl
    );
    assert_eq!(bed_channel_to_r(BedChannel::FrontLeft), RChannelLabel::L);
}

#[test]
fn places_beyond_the_tables_are_unknown() {
    assert_eq!(oamd_speaker_to_label(1000), RChannelLabel::Unknown);
    assert_eq!(speaker_to_label(1000), RChannelLabel::Unknown);
    assert_eq!(oamd_speaker_to_label(0), RChannelLabel::L);
    assert_eq!(speaker_to_label(0), RChannelLabel::C);
}
