use fast_audio_resampler::{
    frame_alignment_error, Backend, Error, Quality, ResamplerConfig,
};

#[test]
fn quality_tables() {
    assert_eq!(Quality::Fast.taps(), 24);
    assert_eq!(Quality::Balanced.taps(), 48);
    assert_eq!(Quality::Best.taps(), 96);
    assert_eq!(Quality::Fast.phases(), 256);
    assert_eq!(Quality::Balanced.phases(), 512);
    assert_eq!(Quality::Best.phases(), 1024);
    assert_eq!(Quality::default(), Quality::Balanced);
}

#[test]
fn new_config_uses_defaults() {
    let config = ResamplerConfig::new(44_100, 48_000, 2);
    assert_eq!(config.input_rate, 44_100);
    assert_eq!(config.output_rate, 48_000);
    assert_eq!(config.channels, 2);
    assert_eq!(config.quality, Quality::Balanced);
    assert_eq!(config.backend, Backend::Auto);
    assert_eq!(config.max_input_frames_per_chunk, None);
    assert_eq!(config.validate(), Ok(()));
}

#[test]
fn validate_rejects_zero_rates_before_zero_channels() {
    assert_eq!(ResamplerConfig::new(0, 48_000, 2).validate(), Err(Error::InvalidSampleRate));
    assert_eq!(ResamplerConfig::new(44_100, 0, 2).validate(), Err(Error::InvalidSampleRate));
    assert_eq!(ResamplerConfig::new(0, 0, 0).validate(), Err(Error::InvalidSampleRate));
    assert_eq!(ResamplerConfig::new(44_100, 48_000, 0).validate(), Err(Error::InvalidChannels));
}

#[test]
fn frame_alignment_error_carries_its_counts() {
    assert_eq!(
        frame_alignment_error(3, 2),
        Error::InputNotFrameAligned { samples: 3, channels: 2 }
    );
}
