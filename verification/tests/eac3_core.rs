use harletty::eac3::frame::{
    dependent_chanmap_positions, overlay_dependent, CoreAlignmentDelay, CorePcmFrame,
    JOC_LATENCY_SAMPLES,
};
use harletty::eac3::pcm::{merge_core_with_dependent, AccessUnitInfo, CoreDecode, PcmDecoder};
use harletty::eac3::types::BedChannel;
use harletty::level::Level;

#[test]
fn the_core_is_held_back_by_exactly_the_joc_latency() {
    let mut delay = CoreAlignmentDelay::new(0.0f32);
    let frame_len = 1536;
    let mut seen: Vec<f32> = Vec::new();

    for frame in 0..3 {
        let base = frame * frame_len;
        let core = CorePcmFrame {
            sample_rate: 48_000,
            fullband_channel_order: vec![BedChannel::FrontLeft],
            fullband_channels: vec![(0..frame_len).map(|n| (base + n) as f32).collect()],
            lfe_channel: Some((0..frame_len).map(|n| (base + n) as f32).collect()),
        };
        let core = delay.delayed(&core);
        // The LFE is the channel that actually reaches the mix; it must be
        // shifted the same way as everything else in the frame.
        assert_eq!(
            core.lfe_channel.as_deref(),
            Some(&core.fullband_channels[0][..])
        );
        seen.extend_from_slice(&core.fullband_channels[0]);
    }

    assert!(seen[..JOC_LATENCY_SAMPLES].iter().all(|&s| s == 0.0));
    for (n, &sample) in seen[JOC_LATENCY_SAMPLES..].iter().enumerate() {
        assert_eq!(sample, n as f32, "sample {n} landed in the wrong slot");
    }
}

#[test]
fn frames_shorter_than_the_latency_are_delayed_too() {
    let mut delay = CoreAlignmentDelay::new(-1i32);
    let mut seen = Vec::new();
    for frame in 0..20 {
        let core = CorePcmFrame {
            sample_rate: 48_000,
            fullband_channel_order: vec![],
            fullband_channels: vec![],
            lfe_channel: Some((frame * 100..(frame + 1) * 100).collect()),
        };
        seen.extend(delay.delayed(&core).lfe_channel.unwrap());
    }
    assert!(seen[..577].iter().all(|&s| s == -1));
    assert!(seen[577..].iter().enumerate().all(|(n, &s)| s == n as i32));
}

#[test]
fn a_reset_clears_the_carried_tail() {
    let mut delay = CoreAlignmentDelay::new(0.0f32);
    let first = CorePcmFrame {
        sample_rate: 48_000,
        fullband_channel_order: vec![],
        fullband_channels: vec![],
        lfe_channel: Some(vec![1.0; 1536]),
    };
    delay.delayed(&first);
    delay.reset();

    let second = CorePcmFrame {
        sample_rate: 48_000,
        fullband_channel_order: vec![],
        fullband_channels: vec![],
        lfe_channel: Some(vec![2.0; 1536]),
    };
    let lfe = delay.delayed(&second).lfe_channel.unwrap();
    assert!(lfe[..JOC_LATENCY_SAMPLES].iter().all(|&s| s == 0.0));
    assert!(lfe[JOC_LATENCY_SAMPLES..].iter().all(|&s| s == 2.0));
}

#[test]
fn a_narrower_core_starts_its_tails_from_silence() {
    let mut delay = CoreAlignmentDelay::new(0.0f32);
    let wide = CorePcmFrame {
        sample_rate: 48_000,
        fullband_channel_order: vec![
            BedChannel::FrontLeft,
            BedChannel::Center,
            BedChannel::FrontRight,
        ],
        fullband_channels: vec![vec![1.0; 1536], vec![2.0; 1536], vec![3.0; 1536]],
        lfe_channel: None,
    };
    delay.delayed(&wide);

    let narrow = CorePcmFrame {
        sample_rate: 48_000,
        fullband_channel_order: vec![BedChannel::FrontLeft, BedChannel::FrontRight],
        fullband_channels: vec![vec![0.0; 1536], vec![0.0; 1536]],
        lfe_channel: None,
    };
    let narrow = delay.delayed(&narrow);
    for (index, channel) in narrow.fullband_channels.iter().enumerate() {
        assert!(
            channel.iter().all(|&sample| sample == 0.0),
            "channel {index} opened on the previous layout's audio",
        );
    }
}

fn left_with_lfe(fullband: f32, lfe: Option<f32>, sample_rate: u32) -> CorePcmFrame<f32> {
    CorePcmFrame {
        sample_rate,
        fullband_channel_order: vec![BedChannel::FrontLeft],
        fullband_channels: vec![vec![fullband; 1536]],
        lfe_channel: lfe.map(|value| vec![value; 1536]),
    }
}

#[test]
fn an_lfe_that_comes_back_starts_from_silence() {
    let mut delay = CoreAlignmentDelay::new(0.0f32);
    delay.delayed(&left_with_lfe(1.0, Some(1.0), 48_000));
    delay.delayed(&left_with_lfe(1.0, None, 48_000));
    let returned = left_with_lfe(1.0, Some(0.0), 48_000);
    let lfe = delay.delayed(&returned).lfe_channel.unwrap();
    assert!(
        lfe.iter().all(|&sample| sample == 0.0),
        "the LFE came back carrying the audio it left with",
    );
}

#[test]
fn a_sample_rate_change_starts_the_tails_from_silence() {
    let mut delay = CoreAlignmentDelay::new(0.0f32);
    delay.delayed(&left_with_lfe(1.0, None, 48_000));
    let at_44k = delay.delayed(&left_with_lfe(0.0, None, 44_100));
    assert!(at_44k.fullband_channels[0].iter().all(|&s| s == 0.0));
}

#[test]
fn chanmap_0x1a00_maps_to_side_and_back_surrounds() {
    // The common 7.1 channel-extension chanmap (Ls, Rs, Lrs/Rrs).
    assert_eq!(
        dependent_chanmap_positions(0x1A00),
        vec![
            BedChannel::SurroundLeft,
            BedChannel::SurroundRight,
            BedChannel::RearLeft,
            BedChannel::RearRight,
        ]
    );
}

#[test]
fn every_mapped_bit_stands_for_its_channels() {
    assert_eq!(
        dependent_chanmap_positions(0xFFFF),
        vec![
            BedChannel::FrontLeft,
            BedChannel::Center,
            BedChannel::FrontRight,
            BedChannel::SurroundLeft,
            BedChannel::SurroundRight,
            BedChannel::RearLeft,
            BedChannel::RearRight,
            BedChannel::RearCenter,
            BedChannel::WideLeft,
            BedChannel::WideRight,
        ]
    );
    assert_eq!(dependent_chanmap_positions(0x04DF), vec![]);
}

fn five_one() -> CorePcmFrame<i32> {
    CorePcmFrame {
        sample_rate: 48_000,
        fullband_channel_order: vec![
            BedChannel::FrontLeft,
            BedChannel::SurroundLeft,
            BedChannel::SurroundRight,
        ],
        fullband_channels: vec![vec![1, 1], vec![2, 2], vec![3, 3]],
        lfe_channel: Some(vec![9, 9]),
    }
}

fn extension(channels: Vec<Vec<i32>>) -> CorePcmFrame<i32> {
    CorePcmFrame {
        sample_rate: 48_000,
        fullband_channel_order: vec![],
        fullband_channels: channels,
        lfe_channel: None,
    }
}

#[test]
fn a_dependent_replaces_and_appends_channels() {
    let dependent = extension(vec![vec![5, 5], vec![6, 6], vec![7, 7], vec![8, 8]]);
    let bed = overlay_dependent(&five_one(), &dependent, Some(0x1A00)).unwrap();
    assert_eq!(
        bed.fullband_channel_order,
        vec![
            BedChannel::FrontLeft,
            BedChannel::SurroundLeft,
            BedChannel::SurroundRight,
            BedChannel::RearLeft,
            BedChannel::RearRight,
        ]
    );
    assert_eq!(
        bed.fullband_channels,
        vec![vec![1, 1], vec![5, 5], vec![6, 6], vec![7, 7], vec![8, 8]]
    );
    assert_eq!(bed.lfe_channel, Some(vec![9, 9]));
    assert_eq!(bed.total_channels(), 6);
    assert_eq!(bed.samples_per_channel(), 2);
}

#[test]
fn a_dependent_that_does_not_line_up_is_not_merged() {
    let core = five_one();
    let dependent = extension(vec![vec![5, 5], vec![6, 6]]);
    assert!(overlay_dependent(&core, &dependent, None).is_none());
    assert!(overlay_dependent(&core, &dependent, Some(0x1A00)).is_none());
    let short = extension(vec![vec![5], vec![6]]);
    assert!(overlay_dependent(&core, &short, Some(0x0200)).is_none());
    assert!(overlay_dependent(&core, &dependent, Some(0x0200)).is_some());
}

#[test]
fn a_dependent_that_does_not_decode_leaves_the_core_alone() {
    let unit = [0u8; 4];
    let info = |frame_size: usize| AccessUnitInfo::<f32, ()> {
        frame_size,
        dependent_channel_map: Some(0x0200),
        payloads: vec![],
    };
    let decoded = || CoreDecode {
        pcm: extension(vec![vec![5, 5], vec![6, 6]]),
        spx_in_use: true,
        chinspx: vec![true],
    };
    let core = five_one();
    let mut decoder = PcmDecoder::new(|| 0u32);
    let bed = merge_core_with_dependent(
        &mut decoder,
        &core,
        &unit,
        |_: &[u8], _: Level, history: u32| (history + 1, Ok(info(4))),
        |_: &[u8], _: &AccessUnitInfo<f32, ()>, history: u32| (history + 10, Ok(decoded())),
    );
    assert_eq!(bed.unwrap().fullband_channels.len(), 5);
    assert_eq!(decoder.frames_seen(), 1);
    assert!(decoder.last_spx_in_use());
    assert_eq!(decoder.history, 11);
    // A unit of the wrong size is not decoded, and the history is dropped.
    let bed = merge_core_with_dependent(
        &mut decoder,
        &core,
        &unit,
        |_: &[u8], _: Level, history: u32| (history + 1, Ok(info(5))),
        |_: &[u8], _: &AccessUnitInfo<f32, ()>, history: u32| (history + 10, Ok(decoded())),
    );
    assert!(bed.is_none());
    assert_eq!(decoder.frames_seen(), 1);
    assert!(!decoder.last_spx_in_use());
    assert_eq!(decoder.history, 0);
}

#[test]
fn a_run_of_frames_is_delayed_as_one() {
    let mut delay = CoreAlignmentDelay::new(0i32);
    let (mut left, mut lfe, mut sent) = (Vec::new(), Vec::new(), Vec::new());
    // Frames shorter and longer than the delay.
    for (frame, count) in [100usize, 700, 0, 3, 1536].into_iter().enumerate() {
        let samples: Vec<i32> = (0..count).map(|n| (frame * 10_000 + n + 1) as i32).collect();
        sent.extend(samples.clone());
        let core = CorePcmFrame {
            sample_rate: 48_000,
            fullband_channel_order: vec![BedChannel::FrontLeft],
            fullband_channels: vec![samples.clone()],
            lfe_channel: Some(samples),
        };
        let out = delay.delayed(&core);
        left.extend(out.fullband_channels[0].clone());
        lfe.extend(out.lfe_channel.unwrap());
    }
    let mut expected = vec![0; JOC_LATENCY_SAMPLES];
    expected.extend(sent.clone());
    expected.truncate(sent.len());
    assert_eq!(left, expected);
    assert_eq!(lfe, expected);
}
