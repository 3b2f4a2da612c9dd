use fast_audio_resampler::{auto_select, Backend, CpuFeatures, Error, FirBackend, SelectedBackend};

fn aarch64_cpu() -> CpuFeatures {
    CpuFeatures { avx2_fma: false, avx512f: false, neon: true, rvv: false }
}

fn riscv64_v_cpu() -> CpuFeatures {
    CpuFeatures { avx2_fma: false, avx512f: false, neon: false, rvv: true }
}

#[test]
fn explicit_neon_is_unsupported_off_aarch64() {
    assert_eq!(
        Backend::Neon.select(CpuFeatures::none()),
        Err(Error::UnsupportedBackend("neon"))
    );
}

#[test]
fn explicit_rvv_is_unsupported_without_rvv_target_feature() {
    assert_eq!(
        Backend::Rvv.select(CpuFeatures::none()),
        Err(Error::UnsupportedBackend("rvv"))
    );
}

#[test]
fn auto_selects_neon_on_aarch64() {
    assert_eq!(Backend::Auto.select(aarch64_cpu()).unwrap(), SelectedBackend::Neon);
    assert_eq!(Backend::Neon.select(aarch64_cpu()).unwrap(), SelectedBackend::Neon);
}

#[test]
fn auto_selects_rvv_on_riscv64_with_v() {
    assert_eq!(Backend::Auto.select(riscv64_v_cpu()).unwrap(), SelectedBackend::Rvv);
    assert_eq!(Backend::Rvv.select(riscv64_v_cpu()).unwrap(), SelectedBackend::Rvv);
}

#[test]
fn explicit_x86_backends_need_their_features() {
    assert_eq!(
        Backend::Avx2.select(CpuFeatures::none()),
        Err(Error::UnsupportedBackend("avx2+fma"))
    );
    assert_eq!(
        Backend::Avx512.select(CpuFeatures::none()),
        Err(Error::UnsupportedBackend("avx512f"))
    );
    let x86 = CpuFeatures { avx2_fma: true, avx512f: true, neon: false, rvv: false };
    assert_eq!(Backend::Avx2.select(x86), Ok(SelectedBackend::Avx2));
    assert_eq!(Backend::Avx512.select(x86), Ok(SelectedBackend::Avx512));
}

#[test]
fn auto_prefers_the_widest_available_backend() {
    let all = CpuFeatures { avx2_fma: true, avx512f: true, neon: true, rvv: true };
    assert_eq!(auto_select(all), SelectedBackend::Avx512);
    let avx2 = CpuFeatures { avx2_fma: true, avx512f: false, neon: true, rvv: true };
    assert_eq!(auto_select(avx2), SelectedBackend::Avx2);
    assert_eq!(auto_select(CpuFeatures::none()), SelectedBackend::Scalar);
    assert_eq!(Backend::Auto.select(CpuFeatures::none()), Ok(SelectedBackend::Scalar));
}

#[test]
fn scalar_is_always_available() {
    assert_eq!(
        FirBackend::Scalar.select(CpuFeatures::none()),
        Ok(SelectedBackend::Scalar)
    );
}

#[test]
fn selected_backend_names() {
    assert_eq!(SelectedBackend::Scalar.name(), "scalar");
    assert_eq!(SelectedBackend::Avx2.name(), "avx2+fma");
    assert_eq!(SelectedBackend::Avx512.name(), "avx512f");
    assert_eq!(SelectedBackend::Neon.name(), "neon");
    assert_eq!(SelectedBackend::Rvv.name(), "rvv");
}
