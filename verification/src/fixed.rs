use vstd::prelude::*;

use crate::backend::SelectedBackend;

verus! {

/// `x` saturated to the range of `i16`.
pub open spec fn clamp_i16(x: int) -> int {
    if x < i16::MIN {
        i16::MIN as int
    } else if x > i16::MAX {
        i16::MAX as int
    } else {
        x
    }
}

/// A Q15 accumulator rounded half up to an integer sample and saturated to
/// `i16`: `clamp((acc + 2^14) / 2^15)` with floor division.
pub open spec fn q15_round(acc: int) -> int {
    clamp_i16((acc + 16384) / 32768)
}

/// `a[0] * b[0] + ... + a[n-1] * b[n-1]`.
pub open spec fn dot_prefix(a: Seq<i16>, b: Seq<i16>, n: nat) -> int
    decreases n,
{
    if n == 0 {
        0
    } else {
        dot_prefix(a, b, (n - 1) as nat) + a[n - 1] as int * b[n - 1] as int
    }
}

/// The exact integer dot product of two equally long sample sequences.
pub open spec fn dot(a: Seq<i16>, b: Seq<i16>) -> int {
    dot_prefix(a, b, a.len())
}

proof fn lemma_shr15_is_floor_div(x: i64)
    by (bit_vector)
    ensures
        (x >> 15u64) == x / 32768,
{
}

/// Every product of two `i16` values lies in `[-2^30 + 2^15, 2^30]`.
pub proof fn lemma_i16_product_bound(a: i16, b: i16)
    ensures
        -0x4000_0000 <= a as int * b as int <= 0x4000_0000,
{
    assert(-0x4000_0000 <= a as int * b as int <= 0x4000_0000) by (nonlinear_arith)
        requires
            -32768 <= a <= 32767,
            -32768 <= b <= 32767,
    ;
}

/// A dot product of `n` pairs of `i16` values is at most `n * 2^30` in size.
pub proof fn lemma_dot_prefix_bound(a: Seq<i16>, b: Seq<i16>, n: nat)
    requires
        n <= a.len(),
        n <= b.len(),
    ensures
        -(n * 0x4000_0000) <= dot_prefix(a, b, n) <= n * 0x4000_0000,
    decreases n,
{
    if n > 0 {
        lemma_dot_prefix_bound(a, b, (n - 1) as nat);
        lemma_i16_product_bound(a[n - 1], b[n - 1]);
    }
}

/// A dot product of silence is zero, and zero rounds to a silent sample.
pub proof fn lemma_silence_stays_silent(a: Seq<i16>, b: Seq<i16>, n: nat)
    requires
        n <= a.len(),
        forall|i: int| 0 <= i < n ==> a[i] == 0,
    ensures
        dot_prefix(a, b, n) == 0,
        q15_round(0) == 0,
    decreases n,
{
    if n > 0 {
        lemma_silence_stays_silent(a, b, (n - 1) as nat);
    }
}

/// A window holding a single non-zero sample `a[k]` filters, for any Q15
/// coefficients, to a sample no larger in magnitude than `a[k]`.
pub proof fn lemma_impulse_bounded(a: Seq<i16>, b: Seq<i16>, k: int)
    requires
        a.len() == b.len(),
        0 <= k < a.len(),
        forall|i: int| 0 <= i < a.len() && i != k ==> a[i] == 0,
    ensures
        -(a[k] as int) <= q15_round(dot(a, b)) <= a[k] || a[k] <= q15_round(dot(a, b)) <= -(
        a[k] as int),
{
    lemma_dot_single(a, b, a.len(), k);
    let v = a[k] as int;
    let c = b[k] as int;
    if v >= 0 {
        assert(-(v * 32768) <= v * c <= v * 32768) by (nonlinear_arith)
            requires
                v >= 0,
                -32768 <= c <= 32767,
        ;
        assert((v * c + 16384) / 32768 <= v) by (nonlinear_arith)
            requires
                v * c <= v * 32768,
                v >= 0,
        ;
        assert((v * c + 16384) / 32768 >= -v) by (nonlinear_arith)
            requires
                v * c >= -(v * 32768),
                v >= 0,
        ;
    } else {
        assert(v * 32768 <= v * c <= -(v * 32768)) by (nonlinear_arith)
            requires
                v < 0,
                -32768 <= c <= 32767,
        ;
        assert((v * c + 16384) / 32768 <= -v) by (nonlinear_arith)
            requires
                v * c <= -(v * 32768),
                v < 0,
        ;
        assert((v * c + 16384) / 32768 >= v) by (nonlinear_arith)
            requires
                v * c >= v * 32768,
                v < 0,
        ;
    }
}

pub(crate) proof fn lemma_dot_single(a: Seq<i16>, b: Seq<i16>, n: nat, k: int)
    requires
        n <= a.len(),
        n <= b.len(),
        0 <= k < a.len(),
        forall|i: int| 0 <= i < a.len() && i != k ==> a[i] == 0,
    ensures
        dot_prefix(a, b, n) == (if k < n {
            a[k] as int * b[k] as int
        } else {
            0
        }),
    decreases n,
{
    if n > 0 {
        lemma_dot_single(a, b, (n - 1) as nat, k);
    }
}

/// Rounds a Q15 accumulator to an `i16` sample (half up, then saturating).
pub fn q15_acc_to_i16(acc: i64) -> (s: i16)
    requires
        acc <= i64::MAX - 16384,
    ensures
        s as int == q15_round(acc as int),
{
    let half: i64 = 1 << 14;
    assert(half == 16384) by (bit_vector)
        requires
            half == 1i64 << 14i64,
    ;
    let shifted = acc + half;
    proof {
        lemma_shr15_is_floor_div(shifted);
    }
    let rounded = shifted >> 15;
    if rounded < i16::MIN as i64 {
        i16::MIN
    } else if rounded > i16::MAX as i64 {
        i16::MAX
    } else {
        rounded as i16
    }
}

/// The exact Q15 dot product of `samples` and `coeffs`, before rounding.
pub fn dot_i16_acc(samples: &[i16], coeffs: &[i16]) -> (acc: i64)
    requires
        samples.len() == coeffs.len(),
        samples.len() < 0x2_0000_0000,
    ensures
        acc == dot(samples@, coeffs@),
        -0x7fff_ffff_c000_0000 <= acc <= 0x7fff_ffff_c000_0000,
{
    let mut acc: i64 = 0;
    let mut i: usize = 0;
    while i < samples.len()
        invariant
            samples.len() == coeffs.len(),
            samples.len() < 0x2_0000_0000,
            0 <= i <= samples.len(),
            acc == dot_prefix(samples@, coeffs@, i as nat),
        decreases samples.len() - i,
    {
        proof {
            lemma_dot_prefix_bound(samples@, coeffs@, i as nat);
            lemma_i16_product_bound(samples@[i as int], coeffs@[i as int]);
            assert(i * 0x4000_0000 <= 0x7fff_ffff_8000_0000) by (nonlinear_arith)
                requires
                    i < 0x2_0000_0000 - 1,
            ;
        }
        acc = acc + samples[i] as i64 * coeffs[i] as i64;
        i = i + 1;
    }
    proof {
        lemma_dot_prefix_bound(samples@, coeffs@, samples.len() as nat);
        assert(samples.len() * 0x4000_0000 <= 0x7fff_ffff_c000_0000) by (nonlinear_arith)
            requires
                samples.len() < 0x2_0000_0000,
        ;
    }
    acc
}

/// The Q15 dot product of `samples` and `coeffs`, rounded to an `i16` sample.
///
/// Every backend computes the same exact integer sum, so the result does not
/// depend on `backend`.
pub fn dot_i16_q15(backend: SelectedBackend, samples: &[i16], coeffs: &[i16]) -> (s: i16)
    requires
        samples.len() == coeffs.len(),
        samples.len() < 0x2_0000_0000,
    ensures
        s as int == q15_round(dot(samples@, coeffs@)),
{
    let acc = match backend {
        SelectedBackend::Scalar => dot_i16_acc(samples, coeffs),
        SelectedBackend::Avx2 => dot_i16_acc(samples, coeffs),
        SelectedBackend::Avx512 => dot_i16_acc(samples, coeffs),
        SelectedBackend::Neon => dot_i16_acc(samples, coeffs),
        SelectedBackend::Rvv => dot_i16_acc(samples, coeffs),
    };
    q15_acc_to_i16(acc)
}

} // verus!
