use fast_audio_resampler::{dot_i16_acc, dot_i16_q15, q15_acc_to_i16, SelectedBackend};

#[test]
fn q15_rounding_is_half_up_with_floor_division() {
    assert_eq!(q15_acc_to_i16(0), 0);
    assert_eq!(q15_acc_to_i16(16383), 0);
    assert_eq!(q15_acc_to_i16(16384), 1);
    assert_eq!(q15_acc_to_i16(-16384), 0);
    assert_eq!(q15_acc_to_i16(-16385), -1);
    assert_eq!(q15_acc_to_i16(49_152_000), 1500);
}

#[test]
fn q15_rounding_saturates() {
    assert_eq!(q15_acc_to_i16(1 << 40), i16::MAX);
    assert_eq!(q15_acc_to_i16(-(1 << 40)), i16::MIN);
    assert_eq!(q15_acc_to_i16(i64::MAX - 16384), i16::MAX);
    assert_eq!(q15_acc_to_i16(i64::MIN), i16::MIN);
}

#[test]
fn exact_integer_dot_product() {
    assert_eq!(dot_i16_acc(&[1, 2, 3], &[4, 5, 6]), 32);
    assert_eq!(dot_i16_acc(&[], &[]), 0);
    assert_eq!(
        dot_i16_acc(&[i16::MIN, i16::MIN], &[i16::MIN, i16::MIN]),
        2 * (1i64 << 30)
    );
}

#[test]
fn every_backend_gives_the_same_q15_sample() {
    let samples = [1000i16, 2000];
    let coeffs = [16384i16, 16384];
    for backend in [
        SelectedBackend::Scalar,
        SelectedBackend::Avx2,
        SelectedBackend::Avx512,
        SelectedBackend::Neon,
        SelectedBackend::Rvv,
    ] {
        assert_eq!(dot_i16_q15(backend, &samples, &coeffs), 1500);
    }
}

#[test]
fn silence_and_impulses() {
    assert_eq!(dot_i16_q15(SelectedBackend::Scalar, &[0, 0, 0], &[32767, -5, 100]), 0);
    let impulse = dot_i16_q15(SelectedBackend::Scalar, &[0, 24000, 0], &[32767, 32767, 32767]);
    assert_eq!(impulse, 23999);
    assert!((impulse as i32).abs() <= 24000);
}
