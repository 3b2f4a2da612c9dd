use fast_audio_resampler::{
    parse_cli_args, parse_u32, wav_sample_type, Backend, CliRequest, Error, Quality, WavSampleType,
};

fn args(list: &[&str]) -> Vec<String> {
    list.iter().map(|s| s.to_string()).collect()
}

fn cli_error(list: &[&str]) -> String {
    match parse_cli_args(&args(list)) {
        Err(Error::Cli(message)) => message,
        Err(other) => panic!("unexpected error {other:?}"),
        Ok(_) => panic!("expected an error"),
    }
}

#[test]
fn parses_a_full_command_line_with_defaults() {
    match parse_cli_args(&args(&["--in", "a.wav", "--out", "b.wav", "--rate", "48000"])).unwrap() {
        CliRequest::Run(cli) => {
            assert_eq!(cli.input, "a.wav");
            assert_eq!(cli.output, "b.wav");
            assert_eq!(cli.rate, 48000);
            assert_eq!(cli.quality, Quality::Balanced);
            assert_eq!(cli.backend, Backend::Auto);
        }
        CliRequest::Help => panic!("expected a run"),
    }
}

#[test]
fn parses_short_options_quality_and_backend() {
    let request =
        parse_cli_args(&args(&["-r", "+16000", "-q", "best", "-b", "scalar", "-o", "y", "-i", "x"]))
            .unwrap();
    match request {
        CliRequest::Run(cli) => {
            assert_eq!(cli.input, "x");
            assert_eq!(cli.output, "y");
            assert_eq!(cli.rate, 16000);
            assert_eq!(cli.quality, Quality::Best);
            assert_eq!(cli.backend, Backend::Scalar);
        }
        CliRequest::Help => panic!("expected a run"),
    }
}

#[test]
fn help_stops_reading_at_once() {
    assert!(matches!(parse_cli_args(&args(&["-h", "--bogus"])).unwrap(), CliRequest::Help));
    assert!(matches!(
        parse_cli_args(&args(&["--in", "a", "--help"])).unwrap(),
        CliRequest::Help
    ));
    assert_eq!(cli_error(&["--bogus", "--help"]), "unknown argument: --bogus");
}

#[test]
fn reports_missing_options_in_order() {
    assert_eq!(cli_error(&[]), "--in is required");
    assert_eq!(cli_error(&["--in", "a"]), "--out is required");
    assert_eq!(cli_error(&["--in", "a", "--out", "b"]), "--rate is required");
}

#[test]
fn a_path_option_at_the_end_clears_the_path() {
    assert_eq!(
        cli_error(&["--in", "a", "--out", "b", "--rate", "8000", "--in"]),
        "--in is required"
    );
}

#[test]
fn reports_options_without_values() {
    assert_eq!(cli_error(&["--rate"]), "--rate requires a value");
    assert_eq!(cli_error(&["-q"]), "--quality requires a value");
    assert_eq!(cli_error(&["--backend"]), "--backend requires a value");
}

#[test]
fn reports_bad_values() {
    assert_eq!(cli_error(&["--quality", "studio"]), "unknown quality: studio");
    assert_eq!(cli_error(&["--backend", "gpu"]), "unknown backend: gpu");
    assert_eq!(cli_error(&["--rate", "4x"]), "invalid digit found in string");
    assert_eq!(cli_error(&["--rate", "-8000"]), "invalid digit found in string");
    assert_eq!(cli_error(&["--rate", "4294967296"]), "number too large to fit in target type");
    assert_eq!(cli_error(&["--rate", ""]), "cannot parse integer from empty string");
}

#[test]
fn accepts_the_largest_rate() {
    match parse_cli_args(&args(&["-i", "a", "-o", "b", "-r", "4294967295"])).unwrap() {
        CliRequest::Run(cli) => assert_eq!(cli.rate, u32::MAX),
        CliRequest::Help => panic!("expected a run"),
    }
}

#[test]
fn chooses_the_wav_sample_type() {
    assert_eq!(wav_sample_type(true, 32), Ok(WavSampleType::F32));
    assert_eq!(wav_sample_type(false, 16), Ok(WavSampleType::I16));
    assert_eq!(
        wav_sample_type(false, 24),
        Err(Error::Cli(
            "unsupported WAV format: Int with 24 bits per sample; supported formats are f32 and i16 PCM"
                .to_string()
        ))
    );
    assert_eq!(
        wav_sample_type(true, 64),
        Err(Error::Cli(
            "unsupported WAV format: Float with 64 bits per sample; supported formats are f32 and i16 PCM"
                .to_string()
        ))
    );
}

#[test]
fn error_messages_describe_each_error() {
    assert_eq!(Error::InvalidSampleRate.message(), "sample rates must be greater than zero");
    assert_eq!(Error::InvalidChannels.message(), "channel count must be greater than zero");
    assert_eq!(
        Error::InputNotFrameAligned { samples: 3, channels: 2 }.message(),
        "input has 3 samples, which is not divisible by 2 channels"
    );
    assert_eq!(
        Error::InputNotFrameAligned { samples: 0, channels: 10 }.message(),
        "input has 0 samples, which is not divisible by 10 channels"
    );
    assert_eq!(
        Error::OutputTooSmall { required: 12, available: 8 }.message(),
        "output buffer has 8 samples, but 12 samples are required"
    );
    assert_eq!(
        Error::UnsupportedBackend("neon").message(),
        "requested backend is not available: neon"
    );
    assert_eq!(Error::Cli("bad".to_string()).message(), "bad");
    assert_eq!(
        Error::OutputTooSmall { required: usize::MAX, available: 1_000_000_007 }.message(),
        format!("output buffer has 1000000007 samples, but {} samples are required", usize::MAX)
    );
}

#[test]
fn parse_u32_reads_as_std_does() {
    let cases = [
        "", "+", "-", "0", "+0", "007", "42", "+42", "-42", "4294967295", "4294967296",
        "+4294967295", "99999999999", "99999999999x", "9x", "x9", " 1", "1 ", "1_000", "é",
        "12é", "++1", "+-1", "00000000000000000001", "42949672950",
    ];
    for case in cases {
        let expected = case.parse::<u32>().map_err(|e| e.to_string());
        assert_eq!(parse_u32(case), expected, "{case:?}");
    }
}
