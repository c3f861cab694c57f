use harletty::eac3::frame::CorePcmFrame;
use harletty::eac3::joc::{
    decode_parameter_points, expanded_parameter_band_mapping, Gain, SubbandMatrix,
};
use harletty::eac3::reconstruction::{
    build_object_timeslots, map_input_channel_indices, JocObjectDecoderState, MixSource, SlotMix,
};
use harletty::eac3::types::{BedChannel, JocObject, JocObjectData, JocPayload, ParseError};

const NO_GAIN: Gain = Gain { steps: 0, table: 0 };

/// One step of a quantizer.
fn dequantization_step(quantization_table: usize) -> f32 {
    820.0 / (4096.0 * (1 + quantization_table) as f32)
}

fn value(gain: Gain) -> f32 {
    gain.steps as f32 * dequantization_step(gain.table as usize)
}

fn values(matrix: &SubbandMatrix) -> Vec<[f32; 64]> {
    matrix
        .iter()
        .map(|channel| {
            let mut row = [0.0; 64];
            for (target, gain) in row.iter_mut().zip(channel) {
                *target = value(*gain);
            }
            row
        })
        .collect()
}

/// The matrix of a timeslot, from the previous matrix and the data points.
fn slot_matrix(
    mix: SlotMix,
    previous: &[[f32; 64]],
    points: &[SubbandMatrix; 2],
) -> Vec<[f32; 64]> {
    let first = values(&points[0]);
    let second = values(&points[1]);
    let pick = |source: MixSource| match source {
        MixSource::Previous => previous.to_vec(),
        MixSource::First => first.clone(),
        MixSource::Second => second.clone(),
    };
    match mix {
        SlotMix::Silent => vec![[0.0; 64]; previous.len()],
        SlotMix::Blend {
            from,
            to,
            numerator,
            denominator,
        } => {
            let lerp = numerator as f32 / denominator as f32;
            let from = pick(from);
            let to = pick(to);
            from.iter()
                .zip(&to)
                .map(|(from, to)| {
                    let mut row = [0.0; 64];
                    for subband in 0..64 {
                        row[subband] = from[subband] + (to[subband] - from[subband]) * lerp;
                    }
                    row
                })
                .collect()
        }
    }
}

fn frame(order: Vec<BedChannel>, samples: usize) -> CorePcmFrame<f32> {
    let count = order.len();
    CorePcmFrame {
        sample_rate: 48_000,
        fullband_channel_order: order,
        fullband_channels: vec![vec![0.0; samples]; count],
        lfe_channel: Some(vec![0.0; samples]),
    }
}

fn dense(points: Vec<Vec<Vec<u16>>>, bands_index: u8, bands: usize, offsets: Vec<u8>) -> JocObject {
    JocObject {
        active: true,
        bands_index: Some(bands_index),
        bands,
        sparse_coded: false,
        quantization_table: Some(0),
        steep_slope: !offsets.is_empty(),
        data_points: points.len(),
        timeslot_offsets: offsets,
        data: Some(JocObjectData::Dense { matrices: points }),
    }
}

#[test]
fn parameter_band_mapping_expands_last_band() {
    let mapping = expanded_parameter_band_mapping(7).expect("mapping");
    assert_eq!(mapping[0], 0);
    assert_eq!(mapping[48], 22);
    assert_eq!(mapping[63], 22);
}

#[test]
fn a_band_resolution_beyond_the_tables_is_an_error() {
    assert!(matches!(
        expanded_parameter_band_mapping(8),
        Err(ParseError::InvalidHeader("joc_num_bands_idx"))
    ));
    let mapping = expanded_parameter_band_mapping(1).expect("mapping");
    assert_eq!((mapping[2], mapping[3], mapping[13], mapping[14]), (0, 1, 1, 2));
}

#[test]
fn acmod7_core_layout_reorders_to_joc_input() {
    let frame = frame(
        vec![
            BedChannel::FrontLeft,
            BedChannel::Center,
            BedChannel::FrontRight,
            BedChannel::SurroundLeft,
            BedChannel::SurroundRight,
        ],
        64,
    );
    let indices = map_input_channel_indices(&frame, 5).expect("indices");
    assert_eq!(indices, vec![0, 2, 1, 3, 4]);
}

#[test]
fn five_channel_surround_core_can_feed_rear_joc_inputs() {
    let frame = frame(
        vec![
            BedChannel::FrontLeft,
            BedChannel::FrontRight,
            BedChannel::Center,
            BedChannel::SurroundLeft,
            BedChannel::SurroundRight,
        ],
        64,
    );
    let indices = map_input_channel_indices(&frame, 7).expect("indices");
    assert_eq!(indices, vec![0, 1, 2, 3, 4, 3, 4]);
}

#[test]
fn a_core_without_a_centre_feeds_no_five_channel_downmix() {
    let frame = frame(vec![BedChannel::FrontLeft, BedChannel::FrontRight], 64);
    assert!(matches!(
        map_input_channel_indices(&frame, 5),
        Err(ParseError::UnsupportedFeature("joc-input-layout"))
    ));
}

#[test]
fn sparse_joc_falls_back_to_silence() {
    let object = JocObject {
        active: true,
        bands_index: Some(1),
        bands: 3,
        sparse_coded: true,
        quantization_table: Some(0),
        steep_slope: false,
        data_points: 2,
        timeslot_offsets: Vec::new(),
        data: Some(JocObjectData::Sparse {
            channel_indices: vec![vec![0, 1, 0], vec![1, 0, 1]],
            vectors: vec![vec![4, 5, 6], vec![7, 8, 9]],
        }),
    };

    let one = Gain { steps: 1, table: 0 };
    let two = Gain { steps: 2, table: 0 };
    let mut mix_matrix = [vec![[one; 64]; 5], vec![[two; 64]; 5]];
    let mut timeslot_offsets = [0; 2];
    decode_parameter_points(&mut mix_matrix, &mut timeslot_offsets, &object, 5).expect("points");

    // The zeroed parameter bands are expanded across every subband on the
    // way out, so whatever the matrices held before is gone entirely.
    assert!(values(&mix_matrix[0])
        .iter()
        .all(|channel| channel.iter().all(|value| *value == 0.0)));
    assert!(values(&mix_matrix[1])
        .iter()
        .all(|channel| channel.iter().all(|value| *value == 0.0)));
}

#[test]
fn dense_decode_wraps_exactly_like_the_integer_quantizer() {
    // The three-band column: band 0 covers subband 0, band 1 starts at 3 and
    // band 2 at 14.
    const BAND_SUBBAND: [usize; 3] = [0, 3, 14];

    for quantization_table in 0..2u8 {
        let steps = (quantization_table as i32 + 1) * 96;
        let center = steps / 2;
        let step = dequantization_step(quantization_table as usize);

        for first in 0..steps {
            let deltas = [first as u16, (steps - 7) as u16, 11];
            let object = JocObject {
                active: true,
                bands_index: Some(1),
                bands: 3,
                sparse_coded: false,
                quantization_table: Some(quantization_table),
                steep_slope: false,
                data_points: 1,
                timeslot_offsets: Vec::new(),
                data: Some(JocObjectData::Dense {
                    matrices: vec![vec![deltas.to_vec()]],
                }),
            };

            let mut mix_matrix = [vec![[NO_GAIN; 64]; 1], vec![[NO_GAIN; 64]; 1]];
            let mut timeslot_offsets = [0; 2];
            decode_parameter_points(&mut mix_matrix, &mut timeslot_offsets, &object, 1)
                .expect("points");

            let mut quantized = center;
            for (band, delta) in deltas.iter().enumerate() {
                quantized = (quantized + *delta as i32) % steps;
                let expected = (quantized - center) as f32 * step;
                let decoded = value(mix_matrix[0][0][BAND_SUBBAND[band]]);
                assert_eq!(
                    decoded, expected,
                    "quant {quantization_table}, first {first}, band {band}: \
                     {decoded} != {expected}"
                );
            }
        }
    }
}

#[test]
fn smooth_two_point_frames_expand_parameter_bands_in_both_halves() {
    let object = dense(vec![vec![vec![0, 1, 1]], vec![vec![2, 1, 1]]], 1, 3, vec![]);
    let mut mix_matrix = [vec![[NO_GAIN; 64]], vec![[NO_GAIN; 64]]];
    let mut timeslot_offsets = [0; 2];
    decode_parameter_points(&mut mix_matrix, &mut timeslot_offsets, &object, 1).expect("points");
    let prev_matrix = vec![[0.0; 64]];
    let slots = build_object_timeslots(&object, timeslot_offsets, 4);
    let output: Vec<_> = slots
        .iter()
        .map(|slot| slot_matrix(*slot, &prev_matrix, &mix_matrix))
        .collect();

    const BAND_1: usize = 3;
    const BAND_2: usize = 14;

    let half = &output[1][0];
    assert!((half[0] - 0.0).abs() < 1e-6);
    assert!((half[BAND_1] - 0.2001953125).abs() < 1e-6);
    assert!((half[13] - 0.2001953125).abs() < 1e-6);
    assert!((half[BAND_2] - 0.400390625).abs() < 1e-6);
    assert!((half[63] - 0.400390625).abs() < 1e-6);

    let between = &output[2][0];
    assert!((between[0] - 0.2001953125).abs() < 1e-6);
    assert!((between[BAND_1] - 0.400390625).abs() < 1e-6);
    assert!((between[BAND_2] - 0.6005859375).abs() < 1e-6);

    let end = &output[3][0];
    assert!((end[0] - 0.400390625).abs() < 1e-6);
    assert!((end[BAND_1] - 0.6005859375).abs() < 1e-6);
    assert!((end[13] - 0.6005859375).abs() < 1e-6);
    assert!((end[BAND_2] - 0.80078125).abs() < 1e-6);
    assert!((end[63] - 0.80078125).abs() < 1e-6);

    // The matrix carried into the next frame is the last point, expanded.
    let carried = carried_matrix(object);
    assert!((carried[0][BAND_2] - 0.80078125).abs() < 1e-6);
    assert!((carried[0][63] - 0.80078125).abs() < 1e-6);
}

/// The matrix that a frame of four timeslots with one object on one channel
/// carries into the next one.
fn carried_matrix(object: JocObject) -> Vec<[f32; 64]> {
    let core = frame(vec![BedChannel::FrontLeft], 256);
    let joc = JocPayload {
        downmix_config: 0,
        channel_count: 1,
        object_count: 1,
        gain: 1.0f32,
        sequence_counter: 0,
        objects: vec![object],
    };
    let mut state = JocObjectDecoderState::new(0.0f32);
    let plan = state.plan_frame(&core, &joc).expect("plan");
    assert_eq!(plan.timeslots, 4);
    assert_eq!(plan.input_indices, vec![0]);
    let mixed = &state.last_frame_matrices()[0];
    assert_eq!(mixed.slots.len(), 4);
    assert!(values(&mixed.previous)[0].iter().all(|v| *v == 0.0));
    values(&state.prev_matrix[0])
}

#[test]
fn steep_frames_expand_parameter_bands_across_the_subbands() {
    let object = dense(vec![vec![vec![0, 1, 1]]], 1, 3, vec![1]);
    let mut mix_matrix = [vec![[NO_GAIN; 64]], vec![[NO_GAIN; 64]]];
    let mut timeslot_offsets = [0; 2];
    decode_parameter_points(&mut mix_matrix, &mut timeslot_offsets, &object, 1).expect("points");
    let prev_matrix = vec![[0.0; 64]];
    let slots = build_object_timeslots(&object, timeslot_offsets, 4);

    let switched = &slot_matrix(slots[3], &prev_matrix, &mix_matrix)[0];
    assert!((switched[0] - 0.0).abs() < 1e-6);
    assert!((switched[3] - 0.2001953125).abs() < 1e-6);
    assert!((switched[13] - 0.2001953125).abs() < 1e-6);
    assert!((switched[14] - 0.400390625).abs() < 1e-6);
    assert!((switched[63] - 0.400390625).abs() < 1e-6);
}

#[test]
fn steep_multi_point_switches_at_both_transmitted_offsets() {
    let object = dense(vec![vec![vec![0]], vec![vec![1]]], 0, 1, vec![1, 3]);
    let prev_matrix = vec![[1.0; 64]];
    let mut mix_matrix = [vec![[NO_GAIN; 64]], vec![[NO_GAIN; 64]]];
    let mut timeslot_offsets = [0; 2];
    decode_parameter_points(&mut mix_matrix, &mut timeslot_offsets, &object, 1).expect("points");
    let slots = build_object_timeslots(&object, timeslot_offsets, 4);
    let output: Vec<_> = slots
        .iter()
        .map(|slot| slot_matrix(*slot, &prev_matrix, &mix_matrix))
        .collect();

    // Previous matrix below the first offset, point 0 between the offsets,
    // point 1 from the second offset on.
    assert!(output[0][0].iter().all(|value| *value == 1.0));
    assert!(output[1][0].iter().all(|value| *value == 0.0));
    assert!(output[2][0].iter().all(|value| *value == 0.0));
    assert!(output[3][0]
        .iter()
        .all(|value| (*value - 0.2001953125).abs() < 1e-6));
    assert!(carried_matrix(object)[0]
        .iter()
        .all(|value| (*value - 0.2001953125).abs() < 1e-6));
}

#[test]
fn steep_single_point_never_reaches_for_a_second_slot() {
    let previous = dense(vec![vec![vec![0]], vec![vec![1]]], 0, 1, vec![2, 3]);
    let current = dense(vec![vec![vec![0]]], 0, 1, vec![1]);

    let mut mix_matrix = [vec![[NO_GAIN; 64]], vec![[NO_GAIN; 64]]];
    let mut timeslot_offsets = [0; 2];
    decode_parameter_points(&mut mix_matrix, &mut timeslot_offsets, &previous, 1)
        .expect("previous");
    decode_parameter_points(&mut mix_matrix, &mut timeslot_offsets, &current, 1).expect("current");

    let prev_matrix = vec![[1.0; 64]];
    let slots = build_object_timeslots(&current, timeslot_offsets, 4);
    let output: Vec<_> = slots
        .iter()
        .map(|slot| slot_matrix(*slot, &prev_matrix, &mix_matrix))
        .collect();

    assert!(output[0][0].iter().all(|value| *value == 1.0));
    assert!(output[1][0].iter().all(|value| *value == 0.0));
    assert!(output[2][0].iter().all(|value| *value == 0.0));
    assert!(output[3][0].iter().all(|value| *value == 0.0));
    assert!(carried_matrix(current)[0].iter().all(|value| *value == 0.0));
}

#[test]
fn malformed_parameters_name_the_field_that_is_wrong() {
    let decode = |object: &JocObject| {
        let mut mix_matrix = [vec![[NO_GAIN; 64]; 2], vec![[NO_GAIN; 64]; 2]];
        let mut timeslot_offsets = [0; 2];
        match decode_parameter_points(&mut mix_matrix, &mut timeslot_offsets, object, 2) {
            Ok(()) => "ok",
            Err(ParseError::InvalidHeader(field)) => field,
            Err(_) => "other",
        }
    };
    let good = || dense(vec![vec![vec![0, 0, 0], vec![0, 0, 0]]], 1, 3, vec![]);
    assert_eq!(decode(&good()), "ok");
    let mut object = good();
    object.quantization_table = None;
    assert_eq!(decode(&object), "joc_num_quant_idx");
    object.active = false;
    assert_eq!(decode(&object), "ok");
    let mut object = good();
    object.data = None;
    assert_eq!(decode(&object), "joc-object-data");
    let mut object = good();
    object.data_points = 2;
    assert_eq!(decode(&object), "joc_dense_points");
    let object = dense(vec![vec![vec![0, 0, 0]]], 1, 3, vec![]);
    assert_eq!(decode(&object), "joc_dense_channels");
    let object = dense(vec![vec![vec![0, 0, 0], vec![0, 0]]], 1, 3, vec![]);
    assert_eq!(decode(&object), "joc_dense_bands");
    let mut object = good();
    object.bands_index = None;
    assert_eq!(decode(&object), "joc_num_bands_idx");
    object.bands_index = Some(8);
    assert_eq!(decode(&object), "joc_num_bands_idx");
    let mut object = good();
    object.data = Some(JocObjectData::Sparse {
        channel_indices: vec![],
        vectors: vec![vec![0, 0, 0]],
    });
    assert_eq!(decode(&object), "joc_sparse_points");
    object.data = Some(JocObjectData::Sparse {
        channel_indices: vec![vec![0, 0, 0]],
        vectors: vec![vec![0, 0]],
    });
    assert_eq!(decode(&object), "joc_sparse_bands");
}

#[test]
fn frames_that_cannot_be_rebuilt_are_refused() {
    let payload = |channel_count, object_count| JocPayload {
        downmix_config: 0,
        channel_count,
        object_count,
        gain: 1.0f32,
        sequence_counter: 0,
        objects: vec![dense(vec![vec![vec![0]]], 0, 1, vec![])],
    };
    let order = || vec![BedChannel::FrontLeft, BedChannel::FrontRight];
    let mut state = JocObjectDecoderState::new(0.0f32);
    assert!(matches!(
        state.plan_frame(&frame(order(), 64), &payload(8, 1)),
        Err(ParseError::UnsupportedFeature("joc-channel-count"))
    ));
    assert!(matches!(
        state.plan_frame(&frame(order(), 0), &payload(1, 1)),
        Err(ParseError::InvalidHeader("joc-frame-samples"))
    ));
    assert!(matches!(
        state.plan_frame(&frame(order(), 65), &payload(1, 1)),
        Err(ParseError::InvalidHeader("joc-frame-samples"))
    ));
    assert!(matches!(
        state.plan_frame(&frame(order(), 64), &payload(3, 1)),
        Err(ParseError::UnsupportedFeature("joc-input-layout"))
    ));
    assert!(state.is_cold());
    assert!(matches!(
        state.plan_frame(&frame(order(), 64), &payload(1, 2)),
        Err(ParseError::InvalidHeader("joc-object"))
    ));
    assert!(!state.is_cold());
    state.reset();
    assert!(state.is_cold());
}

#[test]
fn an_object_that_was_active_plays_its_tail_out() {
    let mut state = JocObjectDecoderState::new(0.0f32);
    state.reconfigure(2, 2);
    assert!(!state.feed_object(0, false));
    assert!(state.feed_object(0, true));
    assert!(state.feed_object(0, false));
    assert!(!state.feed_object(1, false));
    // Fewer objects drop the history, more start without one.
    state.reconfigure(2, 0);
    state.reconfigure(2, 1);
    assert!(!state.feed_object(0, false));
}

#[test]
fn an_error_leaves_the_bands_that_were_read() {
    let seven = Gain { steps: 7, table: 1 };
    let decode = |object: &JocObject| {
        let mut mix_matrix = [vec![[seven; 64]; 2], vec![[seven; 64]; 2]];
        let mut timeslot_offsets = [9; 2];
        let result = decode_parameter_points(&mut mix_matrix, &mut timeslot_offsets, object, 2);
        assert!(result.is_err());
        (mix_matrix, timeslot_offsets)
    };
    let steps = |row: &[Gain; 64]| row[..4].iter().map(|gain| gain.steps).collect::<Vec<_>>();
    // The second channel of the first point is short: the first channel has its
    // bands, not spread over the subbands yet.
    let short = dense(
        vec![vec![vec![1, 2, 3], vec![0, 0]], vec![vec![0; 3], vec![0; 3]]],
        1,
        3,
        vec![4, 5],
    );
    let (matrix, offsets) = decode(&short);
    assert_eq!(steps(&matrix[0][0]), vec![1, 3, 6, 7]);
    assert_eq!(steps(&matrix[0][1]), vec![7, 7, 7, 7]);
    assert_eq!(steps(&matrix[1][0]), vec![7, 7, 7, 7]);
    assert_eq!(offsets, [4, 5]);
    // Without a band resolution every point has its bands.
    let mut unresolved = dense(vec![vec![vec![1, 2, 3], vec![4, 5, 6]]], 1, 3, vec![]);
    unresolved.bands_index = None;
    let (matrix, offsets) = decode(&unresolved);
    assert_eq!(steps(&matrix[0][0]), vec![1, 3, 6, 7]);
    assert_eq!(steps(&matrix[0][1]), vec![4, 9, 15, 7]);
    assert_eq!(steps(&matrix[1][0]), vec![7, 7, 7, 7]);
    assert_eq!(offsets, [9, 9]);
    // A sparse point that is short leaves the one before it cleared.
    let mut sparse = dense(vec![], 1, 3, vec![]);
    sparse.sparse_coded = true;
    sparse.data_points = 2;
    sparse.data = Some(JocObjectData::Sparse {
        channel_indices: vec![vec![0; 3], vec![0; 2]],
        vectors: vec![vec![0; 3], vec![0; 3]],
    });
    let (matrix, _) = decode(&sparse);
    assert_eq!(steps(&matrix[0][1]), vec![0, 0, 0, 7]);
    assert_eq!(steps(&matrix[1][1]), vec![7, 7, 7, 7]);
    // An error in front of the data leaves everything.
    let mut untyped = dense(vec![vec![vec![1, 2, 3], vec![4, 5, 6]]], 1, 3, vec![4]);
    untyped.quantization_table = None;
    let (matrix, offsets) = decode(&untyped);
    assert!(matrix.iter().flatten().flatten().all(|gain| *gain == seven));
    assert_eq!(offsets, [9, 9]);
}

#[test]
fn a_frame_in_error_keeps_what_was_taken_up_before_it() {
    let core = frame(vec![BedChannel::FrontLeft], 128);
    let payload = |objects: Vec<JocObject>| JocPayload {
        downmix_config: 0,
        channel_count: 1,
        object_count: 2,
        gain: 1.0f32,
        sequence_counter: 0,
        objects,
    };
    let good = || dense(vec![vec![vec![1, 1, 1]]], 1, 3, vec![]);
    let bad = || dense(vec![vec![vec![2, 2]]], 1, 3, vec![]);
    let mut state = JocObjectDecoderState::new(0.0f32);
    assert!(matches!(
        state.plan_frame(&core, &payload(vec![good(), bad()])),
        Err(ParseError::InvalidHeader("joc_dense_bands"))
    ));
    // The first object was taken up, the second was not.
    assert_eq!(state.prev_matrix[0][0][63].steps, 3);
    assert_eq!(state.prev_matrix[1][0][63].steps, 0);
    assert_eq!(state.last_frame_matrices().len(), 2);
    assert_eq!(state.last_frame_matrices()[0].slots.len(), 2);
    assert_eq!(state.last_frame_matrices()[0].points[0][0][63].steps, 3);
    assert!(!state.is_cold());
}
