use fast_audio_resampler::{
    check_output_slice, expected_output_frames, filter_taps, init_stream, required_output_capacity, special_ratio,
    Backend, CpuFeatures, Error, Quality, ResamplerConfig, SelectedBackend, SpecialRatio,
};

#[test]
fn expected_output_frames_rounds_up() {
    assert_eq!(expected_output_frames(441, 44_100, 48_000), 480);
    assert_eq!(expected_output_frames(160, 8_000, 16_000), 320);
    assert_eq!(expected_output_frames(320, 16_000, 8_000), 160);
    assert_eq!(expected_output_frames(3, 3, 2), 2);
    assert_eq!(expected_output_frames(4, 3, 2), 3);
    assert_eq!(expected_output_frames(0, 44_100, 48_000), 0);
    assert_eq!(expected_output_frames(-7, 44_100, 48_000), 0);
}

#[test]
fn required_output_capacity_adds_filter_slack() {
    assert_eq!(required_output_capacity(320, 16_000, 8_000, 1, 12), 167);
    assert_eq!(required_output_capacity(320, 16_000, 8_000, 2, 12), 334);
    assert_eq!(required_output_capacity(0, 16_000, 8_000, 1, 12), 7);
    assert_eq!(required_output_capacity(441, 44_100, 48_000, 1, 24), 509);
    assert_eq!(required_output_capacity(441, 44_100, 48_000, usize::MAX, 24), usize::MAX);
}

#[test]
fn required_output_capacity_covers_expected_output() {
    for frames in [0usize, 1, 7, 160, 441, 4096] {
        let expected = expected_output_frames(frames as i64, 44_100, 48_000) as usize;
        assert!(required_output_capacity(frames, 44_100, 48_000, 2, 24) >= 2 * expected);
    }
}

#[test]
fn compact_filters_have_an_odd_length() {
    assert_eq!(filter_taps(8_000, 16_000, Quality::Fast), Quality::Fast.taps() + 1);
    assert_eq!(filter_taps(16_000, 8_000, Quality::Best), 97);
    assert_eq!(filter_taps(24_000, 8_000, Quality::Fast), Quality::Fast.taps() + 1);
    assert_eq!(filter_taps(48_000, 44_100, Quality::Balanced), 48);
    assert_eq!(filter_taps(8_000, 24_000, Quality::Fast), 24);
}

#[test]
fn special_ratios() {
    assert_eq!(special_ratio(8_000, 16_000), SpecialRatio::Up2);
    assert_eq!(special_ratio(16_000, 8_000), SpecialRatio::Down2);
    assert_eq!(special_ratio(24_000, 8_000), SpecialRatio::Down3);
    assert_eq!(special_ratio(8_000, 24_000), SpecialRatio::General);
    assert_eq!(special_ratio(44_100, 48_000), SpecialRatio::General);
}

fn config(input_rate: u32, output_rate: u32, channels: usize, quality: Quality) -> ResamplerConfig {
    ResamplerConfig {
        input_rate,
        output_rate,
        channels,
        quality,
        backend: Backend::Scalar,
        max_input_frames_per_chunk: None,
    }
}

#[test]
fn init_stream_reports_configuration_errors_in_order() {
    let cpu = CpuFeatures::none();
    assert!(matches!(
        init_stream::<i16>(config(0, 48_000, 1, Quality::Fast), cpu),
        Err(Error::InvalidSampleRate)
    ));
    assert!(matches!(
        init_stream::<i16>(config(44_100, 0, 0, Quality::Fast), cpu),
        Err(Error::InvalidSampleRate)
    ));
    assert!(matches!(
        init_stream::<i16>(config(44_100, 48_000, 0, Quality::Fast), cpu),
        Err(Error::InvalidChannels)
    ));
    let mut neon = config(44_100, 48_000, 1, Quality::Fast);
    neon.backend = Backend::Neon;
    assert!(matches!(
        init_stream::<f32>(neon, cpu),
        Err(Error::UnsupportedBackend("neon"))
    ));
}

#[test]
fn init_stream_lays_out_the_general_path() {
    let setup = init_stream::<i16>(ResamplerConfig::new(44_100, 48_000, 2), CpuFeatures::none())
        .unwrap();
    assert_eq!(setup.backend, SelectedBackend::Scalar);
    assert_eq!(setup.taps, 48);
    assert_eq!(setup.special_ratio, SpecialRatio::General);
    assert!(!setup.uses_fast_iir);
    assert_eq!(setup.channels.len(), 2);
    for channel in &setup.channels {
        assert_eq!(channel.capacity(), 192);
        assert_eq!(channel.start_frame(), 0);
        assert_eq!(channel.end_frame(), 0);
    }
}

#[test]
fn init_stream_sizes_rings_for_the_chunk_hint() {
    let mut cfg = ResamplerConfig::new(48_000, 16_000, 1);
    cfg.max_input_frames_per_chunk = Some(960);
    let setup = init_stream::<i16>(cfg, CpuFeatures::none()).unwrap();
    assert_eq!(setup.channels[0].capacity(), 960 + 48 + 8);
    cfg.max_input_frames_per_chunk = Some(10);
    let setup = init_stream::<i16>(cfg, CpuFeatures::none()).unwrap();
    assert_eq!(setup.channels[0].capacity(), 4 * 48);
}

#[test]
fn fast_exact_ratios_use_the_iir_path() {
    let setup = init_stream::<f32>(config(8_000, 16_000, 1, Quality::Fast), CpuFeatures::none())
        .unwrap();
    assert!(setup.uses_fast_iir);
    assert_eq!(setup.special_ratio, SpecialRatio::Up2);
    assert_eq!(setup.taps, 25);
    assert_eq!(setup.channels[0].capacity(), 100);
    let setup = init_stream::<f32>(config(16_000, 8_000, 1, Quality::Balanced), CpuFeatures::none())
        .unwrap();
    assert!(!setup.uses_fast_iir);
    assert_eq!(setup.special_ratio, SpecialRatio::Down2);
    let setup = init_stream::<f32>(config(24_000, 8_000, 1, Quality::Fast), CpuFeatures::none())
        .unwrap();
    assert!(!setup.uses_fast_iir);
    assert_eq!(setup.special_ratio, SpecialRatio::Down3);
    assert_eq!(setup.taps, 25);
}

#[test]
fn check_output_slice_checks_frames_then_capacity() {
    assert_eq!(
        check_output_slice(3, 44_100, 48_000, 2, 24, 0),
        Err(Error::InputNotFrameAligned { samples: 3, channels: 2 })
    );
    let required = required_output_capacity(100, 44_100, 48_000, 2, 24);
    assert_eq!(
        check_output_slice(200, 44_100, 48_000, 2, 24, required - 1),
        Err(Error::OutputTooSmall { required, available: required - 1 })
    );
    assert_eq!(check_output_slice(200, 44_100, 48_000, 2, 24, required), Ok(required));
}
