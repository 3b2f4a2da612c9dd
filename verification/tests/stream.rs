use fast_audio_resampler::{
    append_input, render_decimated_frame_q15,
    Error, HalfBandStream, HalfBandTaps, ProcessStats, RingBuffer, SelectedBackend, SpecialRatio,
};

fn short_taps() -> HalfBandTaps {
    HalfBandTaps {
        side_offsets: vec![-1, 1],
        side_coeffs: vec![8192, 8192],
        up_offsets: vec![0, 1],
        up_coeffs: vec![16384, 16384],
        center_coeff: 16384,
    }
}

fn wide_taps() -> HalfBandTaps {
    HalfBandTaps {
        side_offsets: vec![-3, -1, 1, 3],
        side_coeffs: vec![-1024, 9216, 9216, -1024],
        up_offsets: vec![-1, 0, 1, 2],
        up_coeffs: vec![-2048, 18432, 18432, -2048],
        center_coeff: 16384,
    }
}

fn stream(ratio: SpecialRatio, taps: HalfBandTaps, half_taps: usize, channels: usize) -> HalfBandStream {
    let rings = (0..channels).map(|_| RingBuffer::with_capacity(8)).collect();
    HalfBandStream::new(ratio, SelectedBackend::Scalar, taps, half_taps, rings)
}

fn signal(frames: usize, channels: usize) -> Vec<i16> {
    (0..frames * channels)
        .map(|i| (((i * 7919) % 20011) as i32 - 10005) as i16)
        .collect()
}

fn run_chunked(mut s: HalfBandStream, input: &[i16], chunk_samples: &[usize]) -> Vec<i16> {
    let mut output = Vec::new();
    let mut at = 0;
    let mut i = 0;
    while at < input.len() {
        let n = chunk_samples[i % chunk_samples.len()].min(input.len() - at);
        s.process(&input[at..at + n], &mut output).unwrap();
        at += n;
        i += 1;
    }
    s.finish(&mut output);
    output
}

#[test]
fn down2_renders_the_half_band_sum_of_each_even_frame() {
    let mut s = stream(SpecialRatio::Down2, short_taps(), 1, 1);
    let mut output = Vec::new();
    let stats = s.process(&[100, 200, 300, 400, 500, 600], &mut output).unwrap();
    assert_eq!(
        stats,
        ProcessStats { input_frames: 6, output_frames: 3, backend: SelectedBackend::Scalar }
    );
    assert_eq!(output, vec![100, 300, 500]);
    let tail = s.finish(&mut output);
    assert_eq!(tail.output_frames, 0);
    assert_eq!(output, vec![100, 300, 500]);
}

#[test]
fn up2_copies_even_frames_and_interpolates_odd_frames() {
    let mut s = stream(SpecialRatio::Up2, short_taps(), 1, 1);
    let mut output = Vec::new();
    let stats = s.process(&[100, 200, 300], &mut output).unwrap();
    assert_eq!(stats.input_frames, 3);
    assert_eq!(stats.output_frames, 4);
    assert_eq!(output, vec![100, 150, 200, 250]);
    let tail = s.finish(&mut output);
    assert_eq!(tail.output_frames, 2);
    assert_eq!(output, vec![100, 150, 200, 250, 300, 150]);
}

#[test]
fn finished_streams_hold_the_expected_frame_counts() {
    for frames in [0usize, 1, 2, 7, 160, 161] {
        let input = signal(frames, 2);
        let up = run_chunked(stream(SpecialRatio::Up2, wide_taps(), 3, 2), &input, &[64]);
        assert_eq!(up.len(), 2 * frames * 2);
        let down = run_chunked(stream(SpecialRatio::Down2, wide_taps(), 3, 2), &input, &[64]);
        assert_eq!(down.len(), (frames + 1) / 2 * 2);
    }
}

#[test]
fn up2_stereo_chunked_matches_one_shot() {
    let input = signal(160, 2);
    let one_shot = run_chunked(stream(SpecialRatio::Up2, wide_taps(), 3, 2), &input, &[input.len()]);
    let chunked = run_chunked(stream(SpecialRatio::Up2, wide_taps(), 3, 2), &input, &[2, 10, 6, 34]);
    assert_eq!(one_shot.len(), 640);
    assert_eq!(one_shot, chunked);
}

#[test]
fn down2_stereo_chunked_matches_one_shot() {
    let input = signal(640, 2);
    let one_shot =
        run_chunked(stream(SpecialRatio::Down2, wide_taps(), 3, 2), &input, &[input.len()]);
    let chunked = run_chunked(stream(SpecialRatio::Down2, wide_taps(), 3, 2), &input, &[22, 2, 40]);
    assert_eq!(one_shot.len(), 640);
    assert_eq!(one_shot, chunked);
}

#[test]
fn up2_even_outputs_are_the_input_frames() {
    let input = signal(128, 1);
    let output = run_chunked(stream(SpecialRatio::Up2, wide_taps(), 3, 1), &input, &[30]);
    for (k, sample) in input.iter().enumerate() {
        assert_eq!(output[2 * k], *sample);
    }
}

#[test]
fn silence_stays_silent_and_impulses_stay_bounded() {
    for ratio in [SpecialRatio::Up2, SpecialRatio::Down2] {
        let silence = vec![0i16; 320];
        let out = run_chunked(stream(ratio, wide_taps(), 3, 1), &silence, &[100]);
        assert!(out.iter().all(|&s| s == 0));

        let mut impulse = vec![0i16; 320];
        impulse[160] = 24000;
        let out = run_chunked(stream(ratio, wide_taps(), 3, 1), &impulse, &[100]);
        assert!(out.iter().any(|&s| s != 0));
        assert!(out.iter().all(|&s| (s as i32).abs() <= 24000));
    }
}

#[test]
fn unaligned_input_is_refused_and_changes_nothing() {
    let mut s = stream(SpecialRatio::Down2, short_taps(), 1, 2);
    let mut output = vec![9i16];
    let r = s.process(&[1, 2, 3], &mut output);
    assert_eq!(r, Err(Error::InputNotFrameAligned { samples: 3, channels: 2 }));
    assert_eq!(output, vec![9]);
    assert_eq!(s.total_input_frames(), 0);
    let stats = s.process(&[10, 20, 30, 40], &mut output).unwrap();
    assert_eq!(stats.input_frames, 2);
    assert_eq!(s.total_input_frames(), 2);
}

#[test]
fn process_after_finish_takes_nothing() {
    let mut s = stream(SpecialRatio::Up2, short_taps(), 1, 1);
    let mut output = Vec::new();
    s.process(&[1, 2, 3, 4], &mut output).unwrap();
    s.finish(&mut output);
    let before = output.clone();
    let stats = s.process(&[5, 6, 7], &mut output).unwrap();
    assert_eq!(
        stats,
        ProcessStats { input_frames: 0, output_frames: 0, backend: SelectedBackend::Scalar }
    );
    assert_eq!(output, before);
    assert_eq!(s.total_input_frames(), 4);
}

#[test]
fn reset_starts_a_new_stream() {
    let input = signal(256, 1);
    let mut s = stream(SpecialRatio::Down2, wide_taps(), 3, 1);
    let mut first = Vec::new();
    s.process(&input, &mut first).unwrap();
    s.finish(&mut first);
    s.reset();
    assert_eq!(s.total_input_frames(), 0);
    let mut second = Vec::new();
    s.process(&input, &mut second).unwrap();
    s.finish(&mut second);
    assert_eq!(first, second);
}

#[test]
fn required_output_capacity_covers_half_a_filter_and_two_frames() {
    let up = stream(SpecialRatio::Up2, short_taps(), 1, 2);
    assert_eq!(up.required_output_capacity(100), 412);
    let down = stream(SpecialRatio::Down2, wide_taps(), 3, 1);
    assert_eq!(down.required_output_capacity(100), 53);
}

#[test]
fn process_into_slice_refuses_short_output_without_writing() {
    let mut s = stream(SpecialRatio::Up2, short_taps(), 1, 1);
    let mut output = [5i16; 8];
    let r = s.process_into_slice(&[100, 200, 300], &mut output);
    assert_eq!(r, Err(Error::OutputTooSmall { required: 12, available: 8 }));
    assert_eq!(output, [5i16; 8]);
    assert_eq!(s.total_input_frames(), 0);
}

#[test]
fn process_into_slice_checks_frames_before_capacity() {
    let mut s = stream(SpecialRatio::Down2, short_taps(), 1, 2);
    let mut output = [5i16; 1];
    let r = s.process_into_slice(&[1, 2, 3], &mut output);
    assert_eq!(r, Err(Error::InputNotFrameAligned { samples: 3, channels: 2 }));
    assert_eq!(output, [5i16; 1]);
}

#[test]
fn process_into_slice_writes_the_rendered_prefix() {
    let mut s = stream(SpecialRatio::Up2, short_taps(), 1, 1);
    let mut output = [5i16; 12];
    let stats = s.process_into_slice(&[100, 200, 300], &mut output).unwrap();
    assert_eq!(stats.output_frames, 4);
    assert_eq!(output, [100, 150, 200, 250, 5, 5, 5, 5, 5, 5, 5, 5]);
    assert_eq!(s.total_input_frames(), 3);
}

#[test]
fn required_capacity_holds_every_chunk_and_the_tail() {
    for ratio in [SpecialRatio::Up2, SpecialRatio::Down2] {
        let input = signal(333, 2);
        let mut s = stream(ratio, wide_taps(), 3, 2);
        for chunk in input.chunks(2 * 37) {
            let mut output = vec![0i16; s.required_output_capacity(chunk.len() / 2)];
            s.process_into_slice(chunk, &mut output).unwrap();
        }
        let mut tail = Vec::new();
        s.finish(&mut tail);
        assert!(tail.len() <= s.required_output_capacity(0));
    }
}

#[test]
fn down3_renders_the_third_band_sum_of_every_third_frame() {
    let mut s = stream(SpecialRatio::Down3, short_taps(), 1, 1);
    let mut output = Vec::new();
    let stats = s.process(&[100, 200, 300, 400, 500, 600, 700], &mut output).unwrap();
    assert_eq!(stats.input_frames, 7);
    assert_eq!(stats.output_frames, 2);
    assert_eq!(output, vec![100, 400]);
    let tail = s.finish(&mut output);
    assert_eq!(tail.output_frames, 1);
    assert_eq!(output, vec![100, 400, 500]);
    let again = s.finish(&mut output);
    assert_eq!(again.output_frames, 0);
    assert_eq!(output, vec![100, 400, 500]);
}

#[test]
fn down3_stereo_chunked_matches_one_shot() {
    let input = signal(480, 2);
    let one_shot =
        run_chunked(stream(SpecialRatio::Down3, wide_taps(), 4, 2), &input, &[input.len()]);
    let chunked = run_chunked(stream(SpecialRatio::Down3, wide_taps(), 4, 2), &input, &[2, 14, 62]);
    assert_eq!(one_shot.len(), 320);
    assert_eq!(one_shot, chunked);
    for frames in [0usize, 1, 2, 3, 4, 161] {
        let out = run_chunked(stream(SpecialRatio::Down3, wide_taps(), 4, 1), &signal(frames, 1), &[5]);
        assert_eq!(out.len(), (frames + 2) / 3);
    }
}

#[test]
fn decimated_frame_weights_the_centre_and_the_side_taps() {
    let mut channels = vec![RingBuffer::with_capacity(8)];
    append_input(&mut channels, &[100, 200, 300, 400, 500], 4).unwrap();
    let mut output = vec![1i16];
    render_decimated_frame_q15(&channels, 3, 16384, &[-1, 1], &[8192, 8192], &mut output);
    assert_eq!(output, vec![1, 400]);
}
