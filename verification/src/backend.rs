use vstd::prelude::*;

use crate::error::Error;

verus! {

/// The FIR backend a caller asks for.
#[derive(Debug, Clone, Copy, PartialEq, Eq)]
pub enum Backend {
    Auto,
    Scalar,
    Avx2,
    Avx512,
    Neon,
    Rvv,
}

/// The FIR backend a resampler actually runs on.
#[derive(Debug, Clone, Copy, PartialEq, Eq)]
pub enum SelectedBackend {
    Scalar,
    Avx2,
    Avx512,
    Neon,
    Rvv,
}

/// Explicit name of the requested FIR backend.
pub type FirBackend = Backend;

/// Explicit name of the FIR backend in use.
pub type SelectedFirBackend = SelectedBackend;

/// The CPU features that backend selection depends on, as detected on the
/// running machine (AVX2 together with FMA, AVX-512F, NEON, RVV).
#[derive(Debug, Clone, Copy, PartialEq, Eq)]
pub struct CpuFeatures {
    pub avx2_fma: bool,
    pub avx512f: bool,
    pub neon: bool,
    pub rvv: bool,
}

impl CpuFeatures {
    /// A machine without any of the vector extensions.
    pub fn none() -> (c: Self)
        ensures
            !c.avx2_fma && !c.avx512f && !c.neon && !c.rvv,
    {
        CpuFeatures { avx2_fma: false, avx512f: false, neon: false, rvv: false }
    }
}

impl SelectedBackend {
    /// The display name of a backend.
    pub open spec fn spec_name(self) -> Seq<char> {
        match self {
            SelectedBackend::Scalar => "scalar"@,
            SelectedBackend::Avx2 => "avx2+fma"@,
            SelectedBackend::Avx512 => "avx512f"@,
            SelectedBackend::Neon => "neon"@,
            SelectedBackend::Rvv => "rvv"@,
        }
    }

    pub fn name(self) -> (s: &'static str)
        ensures
            s@ == self.spec_name(),
    {
        match self {
            SelectedBackend::Scalar => "scalar",
            SelectedBackend::Avx2 => "avx2+fma",
            SelectedBackend::Avx512 => "avx512f",
            SelectedBackend::Neon => "neon",
            SelectedBackend::Rvv => "rvv",
        }
    }
}

/// The fastest backend that `cpu` supports, in the order AVX-512, AVX2,
/// NEON, RVV, scalar.
pub open spec fn spec_auto_select(cpu: CpuFeatures) -> SelectedBackend {
    if cpu.avx512f {
        SelectedBackend::Avx512
    } else if cpu.avx2_fma {
        SelectedBackend::Avx2
    } else if cpu.neon {
        SelectedBackend::Neon
    } else if cpu.rvv {
        SelectedBackend::Rvv
    } else {
        SelectedBackend::Scalar
    }
}

pub fn auto_select(cpu: CpuFeatures) -> (b: SelectedBackend)
    ensures
        b == spec_auto_select(cpu),
{
    if cpu.avx512f {
        SelectedBackend::Avx512
    } else if cpu.avx2_fma {
        SelectedBackend::Avx2
    } else if cpu.neon {
        SelectedBackend::Neon
    } else if cpu.rvv {
        SelectedBackend::Rvv
    } else {
        SelectedBackend::Scalar
    }
}

impl Backend {
    /// The backend that a request resolves to on `cpu`, or `None` when an
    /// explicitly requested backend is not available there.
    pub open spec fn spec_select(self, cpu: CpuFeatures) -> Option<SelectedBackend> {
        match self {
            Backend::Auto => Some(spec_auto_select(cpu)),
            Backend::Scalar => Some(SelectedBackend::Scalar),
            Backend::Avx2 => if cpu.avx2_fma { Some(SelectedBackend::Avx2) } else { None },
            Backend::Avx512 => if cpu.avx512f { Some(SelectedBackend::Avx512) } else { None },
            Backend::Neon => if cpu.neon { Some(SelectedBackend::Neon) } else { None },
            Backend::Rvv => if cpu.rvv { Some(SelectedBackend::Rvv) } else { None },
        }
    }

    /// The name reported when this explicit backend is unavailable.
    pub open spec fn spec_unavailable_name(self) -> Seq<char> {
        match self {
            Backend::Avx2 => "avx2+fma"@,
            Backend::Avx512 => "avx512f"@,
            Backend::Neon => "neon"@,
            Backend::Rvv => "rvv"@,
            _ => Seq::empty(),
        }
    }

    /// Resolves the requested backend against the features of the machine.
    pub fn select(self, cpu: CpuFeatures) -> (r: Result<SelectedBackend, Error>)
        ensures
            match self.spec_select(cpu) {
                Some(b) => r == Ok::<SelectedBackend, Error>(b),
                None => r matches Err(Error::UnsupportedBackend(name))
                    && name@ == self.spec_unavailable_name(),
            },
    {
        match self {
            Backend::Auto => Ok(auto_select(cpu)),
            Backend::Scalar => Ok(SelectedBackend::Scalar),
            Backend::Avx2 => if cpu.avx2_fma {
                Ok(SelectedBackend::Avx2)
            } else {
                Err(Error::UnsupportedBackend("avx2+fma"))
            },
            Backend::Avx512 => if cpu.avx512f {
                Ok(SelectedBackend::Avx512)
            } else {
                Err(Error::UnsupportedBackend("avx512f"))
            },
            Backend::Neon => if cpu.neon {
                Ok(SelectedBackend::Neon)
            } else {
                Err(Error::UnsupportedBackend("neon"))
            },
            Backend::Rvv => if cpu.rvv {
                Ok(SelectedBackend::Rvv)
            } else {
                Err(Error::UnsupportedBackend("rvv"))
            },
        }
    }
}

/// The explicit request for a backend.
pub open spec fn request_for(b: SelectedBackend) -> Backend {
    match b {
        SelectedBackend::Scalar => Backend::Scalar,
        SelectedBackend::Avx2 => Backend::Avx2,
        SelectedBackend::Avx512 => Backend::Avx512,
        SelectedBackend::Neon => Backend::Neon,
        SelectedBackend::Rvv => Backend::Rvv,
    }
}

/// An explicit backend is available exactly when the CPU has its own
/// feature, whatever its other features, and then it is the backend chosen;
/// the scalar backend is always available; and `Auto` never fails and picks
/// a backend that an explicit request on the same CPU would also get,
/// AVX-512 whenever the CPU has it.
pub proof fn lemma_select_by_own_feature(cpu: CpuFeatures)
    ensures
        Backend::Scalar.spec_select(cpu) == Some(SelectedBackend::Scalar),
        (Backend::Avx2.spec_select(cpu) is Some) == cpu.avx2_fma,
        (Backend::Avx512.spec_select(cpu) is Some) == cpu.avx512f,
        (Backend::Neon.spec_select(cpu) is Some) == cpu.neon,
        (Backend::Rvv.spec_select(cpu) is Some) == cpu.rvv,
        forall|r: Backend, b: SelectedBackend|
            #![trigger r.spec_select(cpu), request_for(b)]
            r != Backend::Auto && r.spec_select(cpu) == Some(b) ==> r == request_for(b),
        Backend::Auto.spec_select(cpu) is Some,
        forall|b: SelectedBackend|
            Backend::Auto.spec_select(cpu) == Some(b) ==> #[trigger] request_for(b).spec_select(cpu)
                == Some(b),
        cpu.avx512f ==> Backend::Auto.spec_select(cpu) == Some(SelectedBackend::Avx512),
{
}

} // verus!
