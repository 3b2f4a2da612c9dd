use vstd::prelude::*;

verus! {

/// The offsets in `lo .. hi` that are not multiples of `stride`, in
/// increasing order.
pub open spec fn sparse_range(lo: int, hi: int, stride: int) -> Seq<i64>
    decreases hi - lo,
{
    if hi <= lo {
        Seq::empty()
    } else if (hi - 1) % stride != 0 {
        sparse_range(lo, hi - 1, stride).push((hi - 1) as i64)
    } else {
        sparse_range(lo, hi - 1, stride)
    }
}

/// Every offset of `sparse_range` lies in `lo .. hi`, is not a multiple of
/// `stride`, and comes after the ones before it.
pub proof fn lemma_sparse_range(lo: int, hi: int, stride: int)
    requires
        stride > 0,
        -0x4000_0000_0000_0000 <= lo,
        hi <= 0x4000_0000_0000_0000,
    ensures
        sparse_range(lo, hi, stride).len() <= (if hi > lo { hi - lo } else { 0 }),
        forall|i: int|
            0 <= i < sparse_range(lo, hi, stride).len() ==> {
                &&& lo <= #[trigger] sparse_range(lo, hi, stride)[i] < hi
                &&& sparse_range(lo, hi, stride)[i] as int % stride != 0
            },
        forall|i: int, j: int|
            0 <= i < j < sparse_range(lo, hi, stride).len() ==> sparse_range(lo, hi, stride)[i]
                < sparse_range(lo, hi, stride)[j],
    decreases hi - lo,
{
    if hi > lo {
        lemma_sparse_range(lo, hi - 1, stride);
    }
}

/// Every offset in `-half_taps ..= half_taps` that is not a multiple of
/// `stride`, in increasing order.
pub fn sparse_offsets(half_taps: usize, stride: i64) -> (v: Vec<i64>)
    requires
        half_taps <= 0x8000_0000,
        stride >= 2,
    ensures
        v@ == sparse_range(-half_taps, half_taps + 1, stride as int),
{
    let h = half_taps as i64;
    let mut v: Vec<i64> = Vec::new();
    let mut o: i64 = -h;
    let ghost s = stride as int;
    // `phase` is `o` modulo `stride`.
    let rem = h % stride;
    let mut phase: i64 = if rem == 0 {
        0
    } else {
        stride - rem
    };
    proof {
        vstd::arithmetic::div_mod::lemma_fundamental_div_mod(h as int, s);
        let q = h as int / s;
        if rem == 0 {
            assert(-h == (-q) * s + 0) by (nonlinear_arith)
                requires
                    h == s * q + rem,
                    rem == 0,
            ;
            vstd::arithmetic::div_mod::lemma_fundamental_div_mod_converse(-h, s, -q, 0);
        } else {
            assert(-h == (-q - 1) * s + (s - rem)) by (nonlinear_arith)
                requires
                    h == s * q + rem,
            ;
            vstd::arithmetic::div_mod::lemma_fundamental_div_mod_converse(-h, s, -q - 1, s - rem);
        }
    }
    while o <= h
        invariant
            h == half_taps,
            h <= 0x8000_0000,
            s == stride,
            stride >= 2,
            -h <= o <= h + 1,
            0 <= phase < stride,
            phase == o as int % s,
            v@ == sparse_range(-h as int, o as int, s),
        decreases h + 1 - o,
    {
        if phase != 0 {
            v.push(o);
        }
        proof {
            vstd::arithmetic::div_mod::lemma_fundamental_div_mod(o as int, s);
            let q = o as int / s;
            if phase + 1 < stride {
                assert(o + 1 == q * s + (phase + 1)) by (nonlinear_arith)
                    requires
                        o == s * q + phase,
                ;
                vstd::arithmetic::div_mod::lemma_fundamental_div_mod_converse(
                    o + 1,
                    s,
                    q,
                    phase + 1,
                );
            } else {
                assert(o + 1 == (q + 1) * s + 0) by (nonlinear_arith)
                    requires
                        o == s * q + phase,
                        phase + 1 == s,
                ;
                vstd::arithmetic::div_mod::lemma_fundamental_div_mod_converse(o + 1, s, q + 1, 0);
            }
        }
        phase = if phase + 1 == stride {
            0
        } else {
            phase + 1
        };
        o = o + 1;
    }
    v
}

/// The up-sampler's view of half-band side offsets: the input frame after
/// the source frame that each side tap reads, `(1 - offset) / 2`.
fn up_offsets(side: &Vec<i64>) -> (up: Vec<i64>)
    requires
        forall|i: int| 0 <= i < side.len() ==> -0x8000_0000 <= #[trigger] side@[i] <= 0x8000_0000,
        forall|i: int| 0 <= i < side.len() ==> #[trigger] side@[i] as int % 2 != 0,
    ensures
        up.len() == side.len(),
        forall|i: int| 0 <= i < side.len() ==> #[trigger] up@[i] == (1 - side@[i]) / 2int,
{
    let mut up: Vec<i64> = Vec::new();
    let mut i: usize = 0;
    while i < side.len()
        invariant
            0 <= i <= side.len(),
            up.len() == i,
            forall|j: int| 0 <= j < side.len() ==> -0x8000_0000 <= #[trigger] side@[j] <= 0x8000_0000,
            forall|j: int| 0 <= j < side.len() ==> #[trigger] side@[j] as int % 2 != 0,
            forall|j: int| 0 <= j < i ==> #[trigger] up@[j] == (1 - side@[j]) / 2int,
        decreases side.len() - i,
    {
        let x = 1 - side[i];
        assert(x % 2 == 0) by {
            vstd::arithmetic::div_mod::lemma_fundamental_div_mod(side@[i as int] as int, 2);
            vstd::arithmetic::div_mod::lemma_fundamental_div_mod_converse(
                x as int,
                2,
                -(side@[i as int] as int / 2),
                0,
            );
        }
        let half = if x >= 0 {
            x / 2
        } else {
            -((-x) / 2)
        };
        up.push(half);
        i = i + 1;
    }
    up
}

/// The side-tap offsets of the half-band filter of `2 * half_taps + 1`
/// taps: the odd offsets in `-half_taps ..= half_taps`, in increasing order,
/// and for each the input frame after the source frame that the upsampler
/// reads with it, `(1 - offset) / 2`.
pub fn half_band_offsets(half_taps: usize) -> (r: (Vec<i64>, Vec<i64>))
    requires
        half_taps <= 0x8000_0000,
    ensures
        r.0@ == sparse_range(-half_taps, half_taps + 1, 2),
        r.1.len() == r.0.len(),
        forall|i: int| 0 <= i < r.0.len() ==> #[trigger] r.1@[i] == (1 - r.0@[i]) / 2int,
        forall|i: int| 0 <= i < r.0.len() ==> -half_taps <= #[trigger] r.0@[i] <= half_taps,
        forall|i: int| 0 <= i < r.1.len() ==> -half_taps <= #[trigger] r.1@[i] <= half_taps,
{
    let side = sparse_offsets(half_taps, 2);
    proof {
        lemma_sparse_range(-half_taps as int, half_taps + 1, 2);
    }
    let up = up_offsets(&side);
    (side, up)
}

/// The side-tap offsets of the third-band filter of `2 * half_taps + 1`
/// taps: the offsets in `-half_taps ..= half_taps` that are not multiples
/// of three (where its taps vanish), in increasing order.
pub fn third_band_offsets(half_taps: usize) -> (side: Vec<i64>)
    requires
        half_taps <= 0x8000_0000,
    ensures
        side@ == sparse_range(-half_taps, half_taps + 1, 3),
        forall|i: int| 0 <= i < side.len() ==> -half_taps <= #[trigger] side@[i] <= half_taps,
{
    let side = sparse_offsets(half_taps, 3);
    proof {
        lemma_sparse_range(-half_taps as int, half_taps + 1, 3);
    }
    side
}

} // verus!
