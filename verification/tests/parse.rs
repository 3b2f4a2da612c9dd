use fast_audio_resampler::{
    backend_from_name, parse_backend, parse_quality, quality_from_name, Error, FirBackend,
    Quality,
};

#[test]
fn parse_backend_accepts_neon() {
    assert_eq!(parse_backend("neon").unwrap(), FirBackend::Neon);
}

#[test]
fn parse_backend_accepts_rvv() {
    assert_eq!(parse_backend("rvv").unwrap(), FirBackend::Rvv);
}

#[test]
fn parses_quality_names_case_insensitively() {
    assert_eq!(quality_from_name("FAST").unwrap(), Quality::Fast);
    assert_eq!(quality_from_name("balanced").unwrap(), Quality::Balanced);
    assert_eq!(quality_from_name("Best").unwrap(), Quality::Best);
    assert!(quality_from_name("studio").is_none());
}

#[test]
fn parses_backend_aliases_case_insensitively() {
    assert_eq!(backend_from_name("AUTO").unwrap(), FirBackend::Auto);
    assert_eq!(backend_from_name("scalar").unwrap(), FirBackend::Scalar);
    assert_eq!(backend_from_name("avx2+fma").unwrap(), FirBackend::Avx2);
    assert_eq!(backend_from_name("avx512f").unwrap(), FirBackend::Avx512);
    assert!(backend_from_name("gpu").is_none());
}

#[test]
fn cli_names_are_exact() {
    assert_eq!(parse_quality("fast"), Ok(Quality::Fast));
    assert_eq!(parse_quality("balanced"), Ok(Quality::Balanced));
    assert_eq!(parse_quality("best"), Ok(Quality::Best));
    assert_eq!(parse_backend("auto"), Ok(FirBackend::Auto));
    assert_eq!(parse_backend("scalar"), Ok(FirBackend::Scalar));
    assert_eq!(parse_backend("avx2"), Ok(FirBackend::Avx2));
    assert_eq!(parse_backend("avx512"), Ok(FirBackend::Avx512));
    assert_eq!(
        parse_quality("Fast"),
        Err(Error::Cli("unknown quality: Fast".to_string()))
    );
    assert_eq!(
        parse_backend("avx2+fma"),
        Err(Error::Cli("unknown backend: avx2+fma".to_string()))
    );
}

#[test]
fn unknown_names_are_reported() {
    assert_eq!(
        parse_quality("studio"),
        Err(Error::Cli("unknown quality: studio".to_string()))
    );
    assert_eq!(
        parse_backend("gpu"),
        Err(Error::Cli("unknown backend: gpu".to_string()))
    );
}

#[test]
fn case_insensitive_lookup_accepts_every_alias() {
    assert_eq!(backend_from_name("Avx2"), Some(FirBackend::Avx2));
    assert_eq!(backend_from_name("AVX512"), Some(FirBackend::Avx512));
    assert_eq!(backend_from_name("NEON"), Some(FirBackend::Neon));
    assert_eq!(backend_from_name("Rvv"), Some(FirBackend::Rvv));
    assert_eq!(backend_from_name("avx2 "), None);
    assert_eq!(quality_from_name(""), None);
}
