use fast_audio_resampler::{
    append_input, discard_before, ensure_history_capacity, gather_window, sample_at, Error,
    RingBuffer,
};

fn rings(channels: usize, capacity: usize) -> Vec<RingBuffer<i16>> {
    (0..channels).map(|_| RingBuffer::with_capacity(capacity)).collect()
}

#[test]
fn rejects_unaligned_input() {
    let mut channels = rings(2, 8);
    let err = append_input(&mut channels, &[0, 1, 2], 4).unwrap_err();
    assert_eq!(err, Error::InputNotFrameAligned { samples: 3, channels: 2 });
    assert_eq!(channels[0].end_frame(), 0);
    assert_eq!(channels[1].end_frame(), 0);
}

#[test]
fn append_deinterleaves_frames() {
    let mut channels = rings(2, 8);
    assert_eq!(append_input(&mut channels, &[1, 2, 3, 4, 5, 6], 4), Ok(3));
    assert_eq!(channels[0].get(0), Some(1));
    assert_eq!(channels[0].get(1), Some(3));
    assert_eq!(channels[0].get(2), Some(5));
    assert_eq!(channels[1].get(0), Some(2));
    assert_eq!(channels[1].get(1), Some(4));
    assert_eq!(channels[1].get(2), Some(6));
    assert_eq!(channels[1].get(3), None);
}

#[test]
fn chunked_append_matches_one_shot() {
    let input: Vec<i16> = (0..40).collect();
    let mut one = rings(2, 4);
    append_input(&mut one, &input, 4).unwrap();
    let mut chunked = rings(2, 4);
    for chunk in input.chunks(6) {
        append_input(&mut chunked, chunk, 4).unwrap();
    }
    for channel in 0..2 {
        assert_eq!(one[channel].start_frame(), chunked[channel].start_frame());
        assert_eq!(one[channel].end_frame(), 20);
        assert_eq!(chunked[channel].end_frame(), 20);
        for frame in 0..20 {
            assert_eq!(one[channel].get(frame), chunked[channel].get(frame));
            assert_eq!(one[channel].get(frame), Some((frame * 2 + channel as i64) as i16));
        }
    }
}

#[test]
fn large_chunk_forces_ring_growth() {
    let mut channels = rings(1, 4);
    let input: Vec<i16> = (0..3000).map(|i| (i % 1000) as i16).collect();
    assert_eq!(append_input(&mut channels, &input, 24), Ok(3000));
    assert!(channels[0].capacity() >= 3000 + 24 + 8);
    assert_eq!(channels[0].capacity(), 4096);
    assert_eq!(channels[0].start_frame(), 0);
    assert_eq!(channels[0].get(2999), Some(999));
}

#[test]
fn ensure_history_capacity_targets() {
    let mut channels = rings(2, 4);
    ensure_history_capacity(&mut channels, 10, 2);
    assert_eq!(channels[0].capacity(), 32);
    let mut channels = rings(1, 4);
    ensure_history_capacity(&mut channels, 0, 10);
    assert_eq!(channels[0].capacity(), 64);
    let mut channels = rings(1, 256);
    ensure_history_capacity(&mut channels, 0, 10);
    assert_eq!(channels[0].capacity(), 256);
}

#[test]
fn sample_at_reads_silence_outside_the_history() {
    let mut channels = rings(1, 8);
    append_input(&mut channels, &[5, 6, 7], 2).unwrap();
    assert_eq!(sample_at(&channels, 0, -1, 0), 0);
    assert_eq!(sample_at(&channels, 0, 1, 0), 6);
    assert_eq!(sample_at(&channels, 0, 3, -9), -9);
}

#[test]
fn discard_applies_to_every_channel() {
    let mut channels = rings(2, 8);
    append_input(&mut channels, &[1, 2, 3, 4, 5, 6], 2).unwrap();
    discard_before(&mut channels, 2);
    assert_eq!(channels[0].start_frame(), 2);
    assert_eq!(channels[1].start_frame(), 2);
    assert_eq!(channels[0].get(1), None);
    assert_eq!(channels[1].get(2), Some(6));
}

#[test]
fn gather_window_pads_with_silence() {
    let mut channels = rings(2, 8);
    append_input(&mut channels, &[1, 2, 3, 4], 2).unwrap();
    let mut scratch = vec![9i16; 5];
    gather_window(&channels, 1, -1, 4, 0, &mut scratch);
    assert_eq!(scratch, vec![0, 2, 4, 0, 9]);
}
