use harletty::eac3::qmf::{wrap_ring_head, QuadratureMirrorFilterBank};

fn next_sample(seed: &mut u32) -> f32 {
    *seed = seed.wrapping_mul(1_664_525).wrapping_add(1_013_904_223);
    let normalized = (*seed >> 8) as f32 / ((1u32 << 24) as f32);
    normalized * 2.0 - 1.0
}

fn next_block(seed: &mut u32) -> [f32; 64] {
    let mut output = [0.0f32; 64];
    for sample in &mut output {
        *sample = next_sample(seed);
    }
    output
}

/// A smooth prototype filter.
fn coefficient(place: usize) -> f32 {
    (std::f32::consts::PI * (place as f32 + 0.5) / 640.0).sin() / 64.0
}

fn analyse(window: &[f32]) -> ([f32; 64], [f32; 64]) {
    let mut grouping = [0.0f32; 128];
    for (place, sample) in window.iter().enumerate() {
        grouping[place % 128] += sample * coefficient(place);
    }
    let mut real = [0.0f32; 64];
    let mut imaginary = [0.0f32; 64];
    for subband in 0..64 {
        for (sample, value) in grouping.iter().enumerate() {
            let angle =
                std::f32::consts::PI * (subband as f32 + 0.5) * (sample as f32 - 0.5) / 64.0;
            real[subband] += angle.cos() * value;
            imaginary[subband] += angle.sin() * value;
        }
    }
    (real, imaginary)
}

/// The 128 synthesis samples of one slot of subbands.
fn spread(real: &[f32; 64], imaginary: &[f32; 64]) -> [f32; 128] {
    let mut block = [0.0f32; 128];
    for (sample, value) in block.iter_mut().enumerate() {
        for subband in 0..64 {
            let angle = std::f32::consts::PI
                * (subband as f32 + 0.5)
                * (sample as f32 - 128.0 + 0.5)
                / 64.0;
            *value += angle.cos() / 64.0 * real[subband];
            *value -= angle.sin() / 64.0 * imaginary[subband];
        }
    }
    block
}

fn gather(window: &[f32], gain: &f32) -> [f32; 64] {
    let mut output = [0.0f32; 64];
    for (sample, value) in output.iter_mut().enumerate() {
        for group in 0..5 {
            let time = 256 * group + sample;
            let place = 128 * group + sample;
            *value += window[time] * coefficient(place);
            *value += window[time + 192] * coefficient(place + 64);
        }
        *value *= gain;
    }
    output
}

#[test]
fn forward_ring_buffer_matches_copy_within_reference() {
    let mut seed = 0x1234_5678u32;
    let mut bank = QuadratureMirrorFilterBank::new(0.0f32);
    let mut reference = [0.0f32; 640];
    for _ in 0..64 {
        let block = next_block(&mut seed);
        let actual = bank.process_forward(&block, &analyse);
        reference.copy_within(0..640 - 64, 64);
        for (slot, sample) in reference.iter_mut().take(64).zip(block.iter().rev()) {
            *slot = *sample;
        }
        assert_eq!(actual, analyse(&reference));
        assert_eq!(bank.forward.samples(), &reference[..]);
    }
    assert!(bank.inverse.samples().iter().all(|&sample| sample == 0.0));
}

#[test]
fn inverse_ring_buffer_matches_copy_within_reference() {
    let mut seed = 0x8765_4321u32;
    let mut bank = QuadratureMirrorFilterBank::new(0.0f32);
    let mut reference = [0.0f32; 1280];
    for _ in 0..64 {
        let real = next_block(&mut seed);
        let imaginary = next_block(&mut seed);
        let block = spread(&real, &imaginary);
        let actual = bank.process_inverse(&block, &1.0f32, &gather);
        reference.copy_within(0..1280 - 128, 128);
        reference[..128].copy_from_slice(&block);
        assert_eq!(actual, gather(&reference, &1.0));
        assert_eq!(bank.inverse.samples(), &reference[..]);
    }
    assert!(bank.forward.samples().iter().all(|&sample| sample == 0.0));
}

#[test]
fn the_head_of_a_ring_wraps() {
    assert_eq!(wrap_ring_head(128, 64, 640), 64);
    assert_eq!(wrap_ring_head(64, 64, 640), 0);
    assert_eq!(wrap_ring_head(0, 64, 640), 576);
}
