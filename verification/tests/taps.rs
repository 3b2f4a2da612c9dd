use fast_audio_resampler::{half_band_offsets, sparse_offsets, third_band_offsets};

#[test]
fn half_band_offsets_are_the_odd_offsets_and_their_upsampler_frames() {
    let (side, up) = half_band_offsets(3);
    assert_eq!(side, vec![-3, -1, 1, 3]);
    assert_eq!(up, vec![2, 1, 0, -1]);
    let (side, up) = half_band_offsets(24);
    assert_eq!(side.len(), 24);
    assert!(side.iter().all(|o| o % 2 != 0 && o.abs() <= 24));
    assert_eq!(up.len(), 24);
}

#[test]
fn third_band_offsets_skip_the_multiples_of_three() {
    assert_eq!(third_band_offsets(4), vec![-4, -2, -1, 1, 2, 4]);
    assert_eq!(third_band_offsets(0), Vec::<i64>::new());
    let side = third_band_offsets(12);
    assert_eq!(side.len(), 16);
}

#[test]
fn sparse_offsets_cover_the_whole_range() {
    assert_eq!(sparse_offsets(5, 5), vec![-4, -3, -2, -1, 1, 2, 3, 4]);
    assert_eq!(sparse_offsets(2, 7), vec![-2, -1, 1, 2]);
}
