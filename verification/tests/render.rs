use fast_audio_resampler::{
    append_input, render_down2_frame_q15, render_exact_ratio_available, render_fir_frame_q15,
    render_up2_frame_q15, HalfBandTaps, RingBuffer, SelectedBackend, SpecialRatio,
};

fn mono(samples: &[i16]) -> Vec<RingBuffer<i16>> {
    let mut channels = vec![RingBuffer::with_capacity(16)];
    append_input(&mut channels, samples, 4).unwrap();
    channels
}

fn taps() -> HalfBandTaps {
    HalfBandTaps {
        side_offsets: vec![1, -1],
        side_coeffs: vec![8192, 8192],
        up_offsets: vec![0, 1],
        up_coeffs: vec![16384, 16384],
        center_coeff: 16384,
    }
}

#[test]
fn fir_frame_filters_the_window_after_the_centre() {
    let channels = mono(&[100, 200, 300, 400]);
    let mut scratch = vec![0i16; 3];
    let mut output = vec![7i16];
    render_fir_frame_q15(
        &channels,
        SelectedBackend::Scalar,
        2,
        1,
        &[16384, 16384, 0],
        &mut scratch,
        &mut output,
    );
    assert_eq!(output, vec![7, 350]);
}

#[test]
fn fir_frame_renders_every_channel() {
    let mut channels = vec![RingBuffer::with_capacity(8), RingBuffer::with_capacity(8)];
    append_input(&mut channels, &[100, -100, 200, -200], 2).unwrap();
    let mut scratch = vec![0i16; 2];
    let mut output = Vec::new();
    render_fir_frame_q15(
        &channels,
        SelectedBackend::Avx2,
        0,
        1,
        &[32767, 0],
        &mut scratch,
        &mut output,
    );
    assert_eq!(output, vec![100, -100]);
}

#[test]
fn up2_even_frames_copy_the_input() {
    let channels = mono(&[100, 200, 300, 400]);
    let table = taps();
    let mut output = Vec::new();
    for k in 0..4 {
        render_up2_frame_q15(&channels, k, &table.up_offsets, &table.up_coeffs, &mut output);
    }
    assert_eq!(output, vec![100, 150, 200, 250]);
}

#[test]
fn down2_frame_filters_around_the_even_input_frame() {
    let channels = mono(&[100, 200, 300, 400]);
    let table = taps();
    let mut output = Vec::new();
    render_down2_frame_q15(
        &channels,
        1,
        table.center_coeff,
        &table.side_offsets,
        &table.side_coeffs,
        &mut output,
    );
    assert_eq!(output, vec![300]);
}

#[test]
fn exact_upsampling_renders_ready_frames_then_the_tail() {
    let channels = mono(&[100, 200, 300, 400]);
    let table = taps();
    let mut output = Vec::new();
    let next = render_exact_ratio_available(
        &channels, SpecialRatio::Up2, &table, 1, 4, 0, false, &mut output,
    );
    assert_eq!(next, 6);
    assert_eq!(output, vec![100, 150, 200, 250, 300, 350]);
    let next = render_exact_ratio_available(
        &channels, SpecialRatio::Up2, &table, 1, 4, next, true, &mut output,
    );
    assert_eq!(next, 8);
    assert_eq!(output.len(), 8);
    assert_eq!(output[6], 400);
    assert_eq!(output[7], 200);
}

#[test]
fn exact_downsampling_yields_half_the_frames() {
    let channels = mono(&[100, 200, 300, 400]);
    let table = taps();
    let mut output = Vec::new();
    let next = render_exact_ratio_available(
        &channels, SpecialRatio::Down2, &table, 1, 4, 0, false, &mut output,
    );
    assert_eq!(next, 2);
    let next = render_exact_ratio_available(
        &channels, SpecialRatio::Down2, &table, 1, 4, next, true, &mut output,
    );
    assert_eq!(next, 2);
    assert_eq!(output, vec![q(100 * 16384 + 200 * 8192), 300]);
}

fn q(acc: i64) -> i16 {
    ((acc + 16384) >> 15) as i16
}

#[test]
fn silence_renders_silence() {
    let channels = mono(&[0; 8]);
    let table = taps();
    let mut output = Vec::new();
    render_exact_ratio_available(&channels, SpecialRatio::Up2, &table, 2, 8, 0, true, &mut output);
    assert_eq!(output.len(), 16);
    assert!(output.iter().all(|&s| s == 0));
    let mut scratch = vec![0i16; 4];
    let mut fir = Vec::new();
    render_fir_frame_q15(
        &channels,
        SelectedBackend::Scalar,
        3,
        2,
        &[1000, 32767, -32768, 5],
        &mut scratch,
        &mut fir,
    );
    assert_eq!(fir, vec![0]);
}
