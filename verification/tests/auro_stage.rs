use abi_stable::std_types::RVec;
use harletty::auro::layout::{ChannelConfig, Layout};
use harletty::bridge::auro_stage::{
    speaker_stream, Detection, DetectionNeed, DtsAuroState, Routed, Verdict,
};
use harletty::bridge::frame::DecodedFrame;
use harletty::bridge::labels::{auro_stream_to_r, speaker_to_label, RChannelLabel};

const MAX_BLOCK: usize = 4096;

const NOTHING: Verdict = Verdict {
    latched: None,
    any_block: false,
};

fn frame(channels: &[&[i32]], speakers: &[usize]) -> DecodedFrame {
    let n = channels[0].len();
    let mut pcm = RVec::with_capacity(n * channels.len());
    for s in 0..n {
        for c in channels {
            pcm.push(c[s]);
        }
    }
    DecodedFrame {
        sampling_frequency: 48_000,
        sample_count: n as u32,
        channel_count: channels.len() as u32,
        pcm,
        channel_labels: speakers.iter().map(|&s| speaker_to_label(s)).collect(),
        metadata: Vec::new(),
        drc_ramp_duration: 0,
        dialogue_level: None,
        is_new_segment: false,
    }
}

#[test]
fn plain_pcm_is_released_unchanged_once_the_stage_gives_up() {
    let speakers = vec![1usize, 2];
    let mut state = DtsAuroState::new(MAX_BLOCK);
    let mut out = Vec::new();
    let n = 512;
    let mut pushed = 0usize;
    while pushed < 3 * MAX_BLOCK {
        let l: Vec<i32> = (0..n).map(|i| (pushed + i) as i32 * 3).collect();
        let r: Vec<i32> = (0..n).map(|i| -((pushed + i) as i32) * 3).collect();
        let chans: Vec<&[i32]> = vec![&l, &r];
        let f = frame(&chans, &speakers);
        state.prepare_detection(&f, &speakers);
        state.route(f, &speakers, NOTHING, &mut out);
        pushed += n;
    }
    assert!(!state.is_unfolding());
    let emitted: usize = out.iter().map(|f| f.sample_count as usize).sum();
    assert_eq!(emitted, pushed, "every held frame came out");
    assert!(out.iter().all(|f| f.channel_count == 2));
    assert_eq!(out[1].pcm[0], 512 * 3, "frames came out in order");
    assert_eq!(state.presentation_name(), "");
}

#[test]
fn frames_are_held_longer_once_a_block_has_validated() {
    for (any_block, held) in [(false, 2), (true, 4)] {
        let mut state = DtsAuroState::new(100);
        let mut out = Vec::new();
        let speakers = vec![1usize];
        let verdict = Verdict {
            latched: None,
            any_block,
        };
        for _ in 0..held {
            let routed = state.route(frame(&[&[7; 100]], &speakers), &speakers, verdict, &mut out);
            assert!(matches!(routed, Routed::Held));
        }
        assert!(out.is_empty());
        let routed = state.route(frame(&[&[7; 1]], &speakers), &speakers, verdict, &mut out);
        assert!(matches!(routed, Routed::Passed));
        assert_eq!(out.len(), held + 1);
    }
}

#[test]
fn a_confirmed_carrier_replays_what_was_held() {
    // Carrier 4.0 of 4.0_4H: DCA speakers L=1, R=2, Ls=3, Rs=4.
    let speakers = vec![1usize, 2, 3, 4];
    let mut state = DtsAuroState::new(MAX_BLOCK);
    let mut out = Vec::new();
    let first = frame(&[&[1, 2], &[3, 4], &[5, 6], &[7, 8]], &speakers);
    assert_eq!(
        state.prepare_detection(&first, &speakers),
        DetectionNeed::Yes {
            new_channels: Some(5)
        }
    );
    let routed = state.route(first, &speakers, NOTHING, &mut out);
    assert!(matches!(routed, Routed::Held));
    let second = frame(&[&[9], &[10], &[11], &[12]], &speakers);
    assert_eq!(
        state.prepare_detection(&second, &speakers),
        DetectionNeed::Yes { new_channels: None }
    );
    let detection = Detection {
        original: Layout(26163),
        carrier: Layout(51),
        block_size: 1024,
    };
    let verdict = Verdict {
        latched: Some(detection),
        any_block: true,
    };
    let start = match state.route(second, &speakers, verdict, &mut out) {
        Routed::Started(start) => start,
        other => panic!("{other:?}"),
    };
    assert!(out.is_empty());
    assert!(state.is_unfolding());
    assert_eq!(state.presentation_name(), "Auro 8.0");
    assert_eq!(start.carriers, vec![0, 1, 4, 5]);
    assert_eq!(start.outputs, vec![0, 1, 4, 5, 9, 10, 13, 14]);
    assert_eq!(start.block_size, 1024);
    assert_eq!(
        start.replay,
        vec![
            vec![vec![1, 2], vec![3, 4], vec![5, 6], vec![7, 8]],
            vec![vec![9], vec![10], vec![11], vec![12]],
        ]
    );
    assert_eq!(state.carrier_index(3), Some(2));
    assert_eq!(state.carrier_index(0), None);

    // What the unfolder gives goes out under the layout's own labels: Auro
    // places every channel itself, the carrier's among them.
    state.drain(&vec![], 0, 0, &mut out);
    assert!(out.is_empty());
    let taken: Vec<i32> = (0..16).collect();
    state.drain(&taken, 2, 1, &mut out);
    assert_eq!(out[0].sample_count, 1);
    assert_eq!(out[0].channel_count, 8);
    assert_eq!(out[0].pcm.as_slice(), &[0, 1, 2, 3, 4, 5, 6, 7]);
    assert_eq!(out[0].channel_labels[0], RChannelLabel::AuroL);
    assert_eq!(out[0].channel_labels[4], RChannelLabel::AuroHl);

    let third = frame(&[&[1], &[1], &[1], &[1]], &speakers);
    assert_eq!(state.prepare_detection(&third, &speakers), DetectionNeed::No);
    let routed = state.route(third, &speakers, NOTHING, &mut out);
    assert!(matches!(routed, Routed::Unfold));
    assert_eq!(out.len(), 1);
    state.reset();
    assert!(!state.is_unfolding());
}

#[test]
fn a_layout_without_streams_keeps_the_carrier() {
    let speakers = vec![1usize];
    let mut state = DtsAuroState::new(MAX_BLOCK);
    let mut out = Vec::new();
    let verdict = Verdict {
        latched: Some(Detection {
            original: Layout(71),
            carrier: Layout(3),
            block_size: 64,
        }),
        any_block: true,
    };
    let routed = state.route(frame(&[&[4]], &speakers), &speakers, verdict, &mut out);
    assert!(matches!(routed, Routed::Passed));
    assert_eq!(out.len(), 1);
    assert!(!state.is_unfolding());
}

#[test]
fn frames_that_cannot_be_a_carrier_end_the_wait() {
    let speakers = vec![1usize];
    let mut state = DtsAuroState::new(MAX_BLOCK);
    let mut out = Vec::new();
    state.route(frame(&[&[4]], &speakers), &speakers, NOTHING, &mut out);
    assert!(out.is_empty());
    state.not_a_carrier(&mut out);
    assert_eq!(out.len(), 1);

    // More channels than the bed has: a presentation of its own.
    let mut state = DtsAuroState::new(MAX_BLOCK);
    let mut out = Vec::new();
    state.route(frame(&[&[4]], &speakers), &speakers, NOTHING, &mut out);
    let wide = frame(&[&[5], &[6]], &[1, 2]);
    assert_eq!(state.prepare_detection(&wide, &speakers), DetectionNeed::No);
    state.route(wide, &speakers, NOTHING, &mut out);
    assert_eq!(out.len(), 2);
    assert_eq!(out[0].pcm[0], 4);
}

#[test]
fn speakers_play_as_their_streams() {
    let streams: Vec<u8> = (0..10).map(speaker_stream).collect();
    assert_eq!(streams, vec![2, 0, 1, 4, 5, 3, 6, 7, 8, 0xff]);
    assert_eq!(auro_stream_to_r(12), RChannelLabel::AuroT);
    assert_eq!(auro_stream_to_r(3), RChannelLabel::LFE);
    assert_eq!(auro_stream_to_r(15), RChannelLabel::Unknown);
}

/// An unfolder that plays each carrier as the stream that it announces, with
/// the borrowed bits cleared, and holds one block back.
struct Unfolder {
    announced: Vec<u8>,
    carriers: Vec<Vec<i32>>,
    outputs: Vec<u8>,
    latency: usize,
    taken: usize,
}

impl Unfolder {
    fn ready(&self) -> usize {
        let pushed = self.carriers.iter().map(Vec::len).min().unwrap();
        pushed.saturating_sub(self.latency) - self.taken
    }

    fn drain(&mut self, state: &DtsAuroState, out: &mut Vec<DecodedFrame>) {
        let ready = self.ready();
        let mut taken = Vec::new();
        for instant in self.taken..self.taken + ready {
            for output in &self.outputs {
                let carrier = self.announced.iter().position(|id| id == output);
                taken.push(carrier.map_or(0, |carrier| self.carriers[carrier][instant] & !0b111));
            }
        }
        self.taken += ready;
        state.drain(&taken, ready, ready, out);
    }
}

#[test]
fn a_carrier_announcing_a_height_plays_it_on_the_height_channel() {
    const BLOCK: usize = 1024;
    // Carrier 4.0 (config 20: 4.0_4H): DCA speakers L=1, R=2, Ls=3, Rs=4.
    let speakers = vec![1usize, 2, 3, 4];
    let announced = vec![9u8, 1, 4, 5];
    let config = ChannelConfig(20);
    let blocks = 6;
    let carrier: Vec<Vec<i32>> = (0..announced.len())
        .map(|c| {
            (0..blocks * BLOCK)
                .map(|i| ((i as i32 * 37 + c as i32 * 1000) % 20000 - 10000) * 8 + 5)
                .collect()
        })
        .collect();
    let total = blocks * BLOCK;
    let mut state = DtsAuroState::new(MAX_BLOCK);
    let mut unfolder = None;
    let mut out = Vec::new();
    let step = 512;
    for start in (0..total).step_by(step) {
        let chans: Vec<&[i32]> = carrier.iter().map(|c| &c[start..start + step]).collect();
        let f = frame(&chans, &speakers);
        let need = state.prepare_detection(&f, &speakers);
        // The detector confirms the carrier two blocks in.
        let seen = start + step;
        let detected = need != DetectionNeed::No && seen >= 2 * BLOCK;
        let verdict = Verdict {
            latched: detected.then_some(Detection {
                original: config.original().unwrap(),
                carrier: config.carrier().unwrap(),
                block_size: BLOCK as u16,
            }),
            any_block: seen >= BLOCK,
        };
        match state.route(f, &speakers, verdict, &mut out) {
            Routed::Held => {}
            Routed::Started(start) => {
                assert_eq!(start.carriers, vec![0, 1, 4, 5]);
                let mut begun = Unfolder {
                    announced: announced.clone(),
                    carriers: vec![Vec::new(); 4],
                    outputs: start.outputs,
                    latency: usize::from(start.block_size),
                    taken: 0,
                };
                for channels in start.replay {
                    for (index, samples) in channels.into_iter().enumerate() {
                        begun.carriers[index].extend(samples);
                    }
                    begun.drain(&state, &mut out);
                }
                unfolder = Some(begun);
            }
            Routed::Unfold => {
                let unfolder = unfolder.as_mut().unwrap();
                for (speaker, samples) in speakers.iter().zip(&chans) {
                    let index = state.carrier_index(*speaker).unwrap();
                    unfolder.carriers[index].extend(*samples);
                }
                unfolder.drain(&state, &mut out);
            }
            Routed::Passed => panic!("the carrier went out as it is"),
        }
    }
    assert!(state.is_unfolding());
    let emitted: usize = out.iter().map(|f| f.sample_count as usize).sum();
    // Everything but one block of latency is out, and none of it as the
    // carrier: every frame has the eight unfolded channels.
    assert_eq!(emitted, total - BLOCK);
    assert!(out.iter().all(|f| f.channel_count == 8));
    assert_eq!(
        out[0].channel_labels,
        vec![
            RChannelLabel::AuroL,
            RChannelLabel::AuroR,
            RChannelLabel::AuroLs,
            RChannelLabel::AuroRs,
            RChannelLabel::AuroHl,
            RChannelLabel::AuroHr,
            RChannelLabel::AuroHls,
            RChannelLabel::AuroHrs,
        ]
    );
    // Sample 100: the L carrier announced HL, so L is silent and the height
    // carries the carrier with its borrowed bits cleared; R plays as R.
    let f = &out[0];
    let row = |s: usize| &f.pcm[s * 8..(s + 1) * 8];
    let s = 100;
    assert_eq!(row(s)[0], 0, "L is not part of the fold");
    assert_eq!(
        row(s)[4],
        carrier[0][s] & !0b111,
        "HL comes off the L carrier"
    );
    assert_eq!(row(s)[1], carrier[1][s] & !0b111, "R plays as R");
    assert_eq!(row(s)[5], 0, "HR was never announced");
}
