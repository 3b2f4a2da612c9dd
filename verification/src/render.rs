use vstd::prelude::*;

use crate::backend::SelectedBackend;
use crate::fixed::{
    dot, dot_i16_q15, lemma_i16_product_bound, q15_acc_to_i16, q15_round,
};
use crate::history::{gather_window, sample_at, sample_or, views};
use crate::plan::SpecialRatio;
use crate::ring::{RingBuffer, RingView};

verus! {

/// The `taps` samples of a channel history starting at absolute frame
/// `first`, silence outside the history.
pub open spec fn window(ring: RingView<i16>, first: int, taps: nat) -> Seq<i16> {
    Seq::new(taps, |t: int| sample_or(ring, first + t, 0i16))
}

/// One output frame of the polyphase FIR path: for each channel, the Q15 dot
/// product of the `coeffs.len()` input frames around `center` with `coeffs`.
pub open spec fn fir_frame(
    channels: Seq<RingView<i16>>,
    center: int,
    half_taps: int,
    coeffs: Seq<i16>,
) -> Seq<i16> {
    Seq::new(
        channels.len(),
        |c: int| q15_round(dot(window(channels[c], center - half_taps + 1, coeffs.len()), coeffs))
            as i16,
    )
}

/// The input frame of tap `offset` around `base`: `base + offset` when
/// `forward`, `base - offset` otherwise.
pub open spec fn tap_frame(base: int, forward: bool, offset: int) -> int {
    if forward {
        base + offset
    } else {
        base - offset
    }
}

/// `sum_i sample(tap_frame(base, forward, offsets[i])) * coeffs[i]` over the
/// first `n` taps of a sparse filter.
pub open spec fn sparse_sum(
    ring: RingView<i16>,
    base: int,
    forward: bool,
    offsets: Seq<i64>,
    coeffs: Seq<i16>,
    n: nat,
) -> int
    decreases n,
{
    if n == 0 {
        0
    } else {
        sparse_sum(ring, base, forward, offsets, coeffs, (n - 1) as nat) + sample_or(
            ring,
            tap_frame(base, forward, offsets[n - 1] as int),
            0i16,
        ) as int * coeffs[n - 1] as int
    }
}

/// Every tap frame around `base` is a valid `i64` frame number.
pub open spec fn taps_in_range(base: int, forward: bool, offsets: Seq<i64>) -> bool {
    forall|i: int|
        0 <= i < offsets.len() ==> i64::MIN <= tap_frame(base, forward, #[trigger] offsets[i] as int)
            <= i64::MAX
}

/// One output frame of the exact 2x upsampler: even output frames copy the
/// input frame `k / 2`; odd ones interpolate it with the half-band side taps.
pub open spec fn up2_frame(
    channels: Seq<RingView<i16>>,
    output_frame: int,
    offsets: Seq<i64>,
    coeffs: Seq<i16>,
) -> Seq<i16> {
    let source = output_frame / 2;
    if output_frame % 2 == 0 {
        Seq::new(channels.len(), |c: int| sample_or(channels[c], source, 0i16))
    } else {
        Seq::new(
            channels.len(),
            |c: int| q15_round(sparse_sum(channels[c], source, true, offsets, coeffs, coeffs.len()))
                as i16,
        )
    }
}

/// One output frame of an exact downsampler: for each channel, the input
/// frame `center` weighted by `center_coeff` plus the taps at `center -
/// offsets[i]` weighted by `coeffs[i]`, rounded from Q15.
pub open spec fn decimated_frame(
    channels: Seq<RingView<i16>>,
    center: int,
    center_coeff: i16,
    offsets: Seq<i64>,
    coeffs: Seq<i16>,
) -> Seq<i16> {
    Seq::new(
        channels.len(),
        |c: int|
            q15_round(
                sample_or(channels[c], center, 0i16) as int * center_coeff as int + sparse_sum(
                    channels[c],
                    center,
                    false,
                    offsets,
                    coeffs,
                    coeffs.len(),
                ),
            ) as i16,
    )
}

/// One output frame of the exact 2x downsampler: the half-band filter
/// centred on input frame `2 * k`.
pub open spec fn down2_frame(
    channels: Seq<RingView<i16>>,
    output_frame: int,
    center_coeff: i16,
    offsets: Seq<i64>,
    coeffs: Seq<i16>,
) -> Seq<i16> {
    decimated_frame(channels, output_frame * 2, center_coeff, offsets, coeffs)
}

/// One output frame of the exact 3x downsampler: the third-band filter
/// centred on input frame `3 * k`.
pub open spec fn down3_frame(
    channels: Seq<RingView<i16>>,
    output_frame: int,
    center_coeff: i16,
    offsets: Seq<i64>,
    coeffs: Seq<i16>,
) -> Seq<i16> {
    decimated_frame(channels, output_frame * 3, center_coeff, offsets, coeffs)
}

/// Every frame of every channel history reads as silence.
pub open spec fn all_silent(channels: Seq<RingView<i16>>) -> bool {
    forall|c: int, f: int| 0 <= c < channels.len() ==> #[trigger] sample_or(channels[c], f, 0i16) == 0
}

proof fn lemma_sparse_sum_of_silence(
    ring: RingView<i16>,
    base: int,
    forward: bool,
    offsets: Seq<i64>,
    coeffs: Seq<i16>,
    n: nat,
)
    requires
        forall|f: int| sample_or(ring, f, 0i16) == 0,
    ensures
        sparse_sum(ring, base, forward, offsets, coeffs, n) == 0,
    decreases n,
{
    if n > 0 {
        lemma_sparse_sum_of_silence(ring, base, forward, offsets, coeffs, (n - 1) as nat);
    }
}

/// Silent input renders silent output on every integer path: the polyphase
/// FIR frame, the 2x upsampler frame and the downsampler frame (2x and 3x)
/// centred on `center`.
pub proof fn lemma_silence_renders_silence(
    channels: Seq<RingView<i16>>,
    center: int,
    half_taps: int,
    fir_coeffs: Seq<i16>,
    output_frame: int,
    center_coeff: i16,
    offsets: Seq<i64>,
    side_coeffs: Seq<i16>,
)
    requires
        all_silent(channels),
    ensures
        fir_frame(channels, center, half_taps, fir_coeffs) == Seq::new(channels.len(), |c: int| 0i16),
        up2_frame(channels, output_frame, offsets, side_coeffs) == Seq::new(
            channels.len(),
            |c: int| 0i16,
        ),
        decimated_frame(channels, center, center_coeff, offsets, side_coeffs) == Seq::new(
            channels.len(),
            |c: int| 0i16,
        ),
{
    assert forall|c: int| 0 <= c < channels.len() implies #[trigger] fir_frame(
        channels,
        center,
        half_taps,
        fir_coeffs,
    )[c] == 0i16 by {
        let w = window(channels[c], center - half_taps + 1, fir_coeffs.len());
        assert forall|i: int| 0 <= i < w.len() implies w[i] == 0 by {
            assert(sample_or(channels[c], center - half_taps + 1 + i, 0i16) == 0);
        }
        crate::fixed::lemma_silence_stays_silent(w, fir_coeffs, w.len());
    }
    assert forall|c: int| 0 <= c < channels.len() implies #[trigger] up2_frame(
        channels,
        output_frame,
        offsets,
        side_coeffs,
    )[c] == 0i16 by {
        assert(forall|f: int| sample_or(channels[c], f, 0i16) == 0);
        lemma_sparse_sum_of_silence(
            channels[c],
            output_frame / 2,
            true,
            offsets,
            side_coeffs,
            side_coeffs.len(),
        );
        crate::fixed::lemma_silence_stays_silent(Seq::<i16>::empty(), side_coeffs, 0);
    }
    assert forall|c: int| 0 <= c < channels.len() implies #[trigger] decimated_frame(
        channels,
        center,
        center_coeff,
        offsets,
        side_coeffs,
    )[c] == 0i16 by {
        assert(forall|f: int| sample_or(channels[c], f, 0i16) == 0);
        lemma_sparse_sum_of_silence(
            channels[c],
            center,
            false,
            offsets,
            side_coeffs,
            side_coeffs.len(),
        );
        assert(sample_or(channels[c], center, 0i16) == 0);
        crate::fixed::lemma_silence_stays_silent(Seq::<i16>::empty(), side_coeffs, 0);
    }
    assert(fir_frame(channels, center, half_taps, fir_coeffs) =~= Seq::new(
        channels.len(),
        |c: int| 0i16,
    ));
    assert(up2_frame(channels, output_frame, offsets, side_coeffs) =~= Seq::new(
        channels.len(),
        |c: int| 0i16,
    ));
    assert(decimated_frame(channels, center, center_coeff, offsets, side_coeffs) =~= Seq::new(
        channels.len(),
        |c: int| 0i16,
    ));
}

/// The 2x upsampler passes the input through unchanged on even output
/// frames: output frame `2 * k` of every channel is input frame `k`.
pub proof fn lemma_up2_even_frames_copy_input(
    channels: Seq<RingView<i16>>,
    k: int,
    offsets: Seq<i64>,
    coeffs: Seq<i16>,
)
    requires
        k >= 0,
    ensures
        forall|c: int|
            0 <= c < channels.len() ==> #[trigger] up2_frame(channels, 2 * k, offsets, coeffs)[c]
                == sample_or(channels[c], k, 0i16),
{
    assert((2 * k) % 2 == 0 && (2 * k) / 2 == k);
}

proof fn lemma_sparse_sum_bound(
    ring: RingView<i16>,
    base: int,
    forward: bool,
    offsets: Seq<i64>,
    coeffs: Seq<i16>,
    n: nat,
)
    requires
        n <= coeffs.len(),
    ensures
        -(n * 0x4000_0000) <= sparse_sum(ring, base, forward, offsets, coeffs, n) <= n
            * 0x4000_0000,
    decreases n,
{
    if n > 0 {
        lemma_sparse_sum_bound(ring, base, forward, offsets, coeffs, (n - 1) as nat);
        lemma_i16_product_bound(
            sample_or(ring, tap_frame(base, forward, offsets[n - 1] as int), 0i16),
            coeffs[n - 1],
        );
    }
}

/// A polyphase FIR frame reads only the input within half a filter of its
/// centre: for a filter of at most `2 * half_taps` taps, histories that
/// agree on frames `center - half_taps + 1 ..= center + half_taps` render
/// the same frame.
pub proof fn lemma_fir_frame_agree(
    v1: Seq<RingView<i16>>,
    v2: Seq<RingView<i16>>,
    center: int,
    half_taps: int,
    coeffs: Seq<i16>,
)
    requires
        coeffs.len() <= 2 * half_taps,
        views_agree(v1, v2, center - half_taps + 1, center + half_taps),
    ensures
        fir_frame(v1, center, half_taps, coeffs) == fir_frame(v2, center, half_taps, coeffs),
{
    let first = center - half_taps + 1;
    assert forall|c: int| 0 <= c < v1.len() implies #[trigger] fir_frame(
        v1,
        center,
        half_taps,
        coeffs,
    )[c] == fir_frame(v2, center, half_taps, coeffs)[c] by {
        let w1 = window(v1[c], first, coeffs.len());
        let w2 = window(v2[c], first, coeffs.len());
        assert forall|t: int| 0 <= t < w1.len() implies w1[t] == w2[t] by {
            assert(sample_or(v1[c], first + t, 0i16) == sample_or(v2[c], first + t, 0i16));
        }
        assert(w1 =~= w2);
    }
    assert(fir_frame(v1, center, half_taps, coeffs) =~= fir_frame(v2, center, half_taps, coeffs));
}

/// An impulse of `x` at input frame `center` passes through a polyphase FIR
/// frame weighted by the centre tap `coeffs[half_taps - 1]`.
pub proof fn lemma_fir_impulse(
    v: Seq<RingView<i16>>,
    c: int,
    center: int,
    half_taps: int,
    coeffs: Seq<i16>,
    x: i16,
)
    requires
        0 <= c < v.len(),
        1 <= half_taps <= coeffs.len(),
        sample_or(v[c], center, 0i16) == x,
        forall|f: int| f != center ==> #[trigger] sample_or(v[c], f, 0i16) == 0,
    ensures
        fir_frame(v, center, half_taps, coeffs)[c] as int == q15_round(
            x as int * coeffs[half_taps - 1] as int,
        ),
{
    let first = center - half_taps + 1;
    let w = window(v[c], first, coeffs.len());
    assert forall|t: int| 0 <= t < w.len() && t != half_taps - 1 implies w[t] == 0 by {
        assert(sample_or(v[c], first + t, 0i16) == 0);
    }
    assert(w[half_taps - 1] == x);
    crate::fixed::lemma_dot_single(w, coeffs, w.len(), half_taps - 1);
    let r = q15_round(dot(w, coeffs));
    assert(-32768 <= r <= 32767);
}

/// `sparse_sum` of one channel, computed with an `i64` accumulator that
/// starts at `init`.
fn sparse_acc(
    channels: &Vec<RingBuffer<i16>>,
    channel: usize,
    base: i64,
    forward: bool,
    offsets: &[i64],
    coeffs: &[i16],
    init: i64,
) -> (acc: i64)
    requires
        channel < channels.len(),
        offsets.len() == coeffs.len(),
        coeffs.len() <= 0x1_0000_0000,
        -0x4000_0000 <= init <= 0x4000_0000,
        taps_in_range(base as int, forward, offsets@),
    ensures
        acc == init + sparse_sum(
            channels[channel as int]@,
            base as int,
            forward,
            offsets@,
            coeffs@,
            coeffs.len() as nat,
        ),
{
    let mut acc = init;
    let mut i: usize = 0;
    while i < coeffs.len()
        invariant
            channel < channels.len(),
            offsets.len() == coeffs.len(),
            coeffs.len() <= 0x1_0000_0000,
            -0x4000_0000 <= init <= 0x4000_0000,
            taps_in_range(base as int, forward, offsets@),
            0 <= i <= coeffs.len(),
            acc == init + sparse_sum(
                channels[channel as int]@,
                base as int,
                forward,
                offsets@,
                coeffs@,
                i as nat,
            ),
        decreases coeffs.len() - i,
    {
        proof {
            lemma_sparse_sum_bound(
                channels[channel as int]@,
                base as int,
                forward,
                offsets@,
                coeffs@,
                i as nat,
            );
            assert(i * 0x4000_0000 <= 0x4000_0000_0000_0000) by (nonlinear_arith)
                requires
                    i <= 0x1_0000_0000,
            ;
            assert(i64::MIN <= tap_frame(base as int, forward, offsets@[i as int] as int) <= i64::MAX);
        }
        let frame = if forward {
            base + offsets[i]
        } else {
            base - offsets[i]
        };
        let sample = sample_at(channels, channel, frame, 0);
        proof {
            lemma_i16_product_bound(sample, coeffs@[i as int]);
        }
        acc = acc + sample as i64 * coeffs[i] as i64;
        i = i + 1;
    }
    acc
}

/// Renders one output frame of the polyphase FIR path into `output`.
///
/// For each channel the taps around input frame `center` are gathered into
/// `scratch` (silence outside the history) and their Q15 dot product with
/// `coeffs` is appended, in channel order.
pub fn render_fir_frame_q15(
    channels: &Vec<RingBuffer<i16>>,
    backend: SelectedBackend,
    center: i64,
    half_taps: usize,
    coeffs: &[i16],
    scratch: &mut Vec<i16>,
    output: &mut Vec<i16>,
)
    requires
        old(scratch).len() == coeffs.len(),
        coeffs.len() <= 0x1_0000_0000,
        half_taps <= coeffs.len(),
        i64::MIN + coeffs.len() <= center,
        center + coeffs.len() < i64::MAX,
    ensures
        final(scratch).len() == old(scratch).len(),
        final(output)@ == old(output)@ + fir_frame(
            views(channels@),
            center as int,
            half_taps as int,
            coeffs@,
        ),
{
    let taps = coeffs.len();
    let first_tap_frame = center - half_taps as i64 + 1;
    let ghost old_output = output@;
    let mut channel: usize = 0;
    while channel < channels.len()
        invariant
            scratch.len() == taps,
            taps == coeffs.len(),
            taps <= 0x1_0000_0000,
            first_tap_frame == center - half_taps + 1,
            first_tap_frame + taps <= i64::MAX,
            0 <= channel <= channels.len(),
            output@ == old_output + fir_frame(
                views(channels@),
                center as int,
                half_taps as int,
                coeffs@,
            ).subrange(0, channel as int),
        decreases channels.len() - channel,
    {
        gather_window(channels, channel, first_tap_frame, taps, 0, scratch);
        proof {
            assert(scratch@ =~= window(channels[channel as int]@, first_tap_frame as int, taps as nat));
        }
        let sample = dot_i16_q15(backend, scratch.as_slice(), coeffs);
        output.push(sample);
        proof {
            let full = fir_frame(views(channels@), center as int, half_taps as int, coeffs@);
            assert(full.subrange(0, channel + 1) =~= full.subrange(0, channel as int).push(sample));
        }
        channel = channel + 1;
    }
    proof {
        let full = fir_frame(views(channels@), center as int, half_taps as int, coeffs@);
        assert(full.subrange(0, channels.len() as int) =~= full);
    }
}

proof fn lemma_low_bit(k: i64)
    by (bit_vector)
    requires
        k >= 0,
    ensures
        (k & 1 == 0) == (k % 2 == 0),
{
}

/// Renders output frame `output_frame` of the exact 2x upsampler into
/// `output`: even frames repeat input frame `output_frame / 2`, odd frames
/// interpolate around it with the half-band taps `offsets` / `coeffs`.
pub fn render_up2_frame_q15(
    channels: &Vec<RingBuffer<i16>>,
    output_frame: i64,
    offsets: &[i64],
    coeffs: &[i16],
    output: &mut Vec<i16>,
)
    requires
        output_frame >= 0,
        offsets.len() == coeffs.len(),
        coeffs.len() <= 0x1_0000_0000,
        taps_in_range(output_frame / 2, true, offsets@),
    ensures
        final(output)@ == old(output)@ + up2_frame(views(channels@), output_frame as int, offsets@, coeffs@),
{
    let source_frame = output_frame / 2;
    let ghost old_output = output@;
    let ghost full = up2_frame(views(channels@), output_frame as int, offsets@, coeffs@);
    proof {
        lemma_low_bit(output_frame);
    }
    if output_frame & 1 == 0 {
        let mut channel: usize = 0;
        while channel < channels.len()
            invariant
                source_frame == output_frame / 2,
                output_frame % 2 == 0,
                full == up2_frame(views(channels@), output_frame as int, offsets@, coeffs@),
                0 <= channel <= channels.len(),
                output@ == old_output + full.subrange(0, channel as int),
            decreases channels.len() - channel,
        {
            let sample = sample_at(channels, channel, source_frame, 0);
            output.push(sample);
            proof {
                assert(full.subrange(0, channel + 1) =~= full.subrange(0, channel as int).push(
                    sample,
                ));
            }
            channel = channel + 1;
        }
        assert(full.subrange(0, channels.len() as int) =~= full);
        return;
    }
    let mut channel: usize = 0;
    while channel < channels.len()
        invariant
            source_frame == output_frame / 2,
            output_frame % 2 != 0,
            offsets.len() == coeffs.len(),
            coeffs.len() <= 0x1_0000_0000,
            taps_in_range(source_frame as int, true, offsets@),
            full == up2_frame(views(channels@), output_frame as int, offsets@, coeffs@),
            0 <= channel <= channels.len(),
            output@ == old_output + full.subrange(0, channel as int),
        decreases channels.len() - channel,
    {
        let acc = sparse_acc(channels, channel, source_frame, true, offsets, coeffs, 0);
        proof {
            lemma_sparse_sum_bound(
                channels[channel as int]@,
                source_frame as int,
                true,
                offsets@,
                coeffs@,
                coeffs.len() as nat,
            );
            assert(coeffs.len() * 0x4000_0000 <= 0x4000_0000_0000_0000) by (nonlinear_arith)
                requires
                    coeffs.len() <= 0x1_0000_0000,
            ;
        }
        let sample = q15_acc_to_i16(acc);
        output.push(sample);
        proof {
            assert(full.subrange(0, channel + 1) =~= full.subrange(0, channel as int).push(sample));
        }
        channel = channel + 1;
    }
    assert(full.subrange(0, channels.len() as int) =~= full);
}

/// Renders one frame of an exact downsampler into `output`: for each
/// channel, input frame `center` weighted by `center_coeff` plus the taps
/// at `center - offsets[i]` weighted by `coeffs[i]`, in channel order.
pub fn render_decimated_frame_q15(
    channels: &Vec<RingBuffer<i16>>,
    center: i64,
    center_coeff: i16,
    offsets: &[i64],
    coeffs: &[i16],
    output: &mut Vec<i16>,
)
    requires
        offsets.len() == coeffs.len(),
        coeffs.len() < 0x1_0000_0000,
        taps_in_range(center as int, false, offsets@),
    ensures
        final(output)@ == old(output)@ + decimated_frame(
            views(channels@),
            center as int,
            center_coeff,
            offsets@,
            coeffs@,
        ),
{
    let ghost old_output = output@;
    let ghost full = decimated_frame(views(channels@), center as int, center_coeff, offsets@, coeffs@);
    let mut channel: usize = 0;
    while channel < channels.len()
        invariant
            offsets.len() == coeffs.len(),
            coeffs.len() < 0x1_0000_0000,
            taps_in_range(center as int, false, offsets@),
            full == decimated_frame(views(channels@), center as int, center_coeff, offsets@, coeffs@),
            0 <= channel <= channels.len(),
            output@ == old_output + full.subrange(0, channel as int),
        decreases channels.len() - channel,
    {
        let middle = sample_at(channels, channel, center, 0);
        proof {
            lemma_i16_product_bound(middle, center_coeff);
        }
        let init = middle as i64 * center_coeff as i64;
        let acc = sparse_acc(channels, channel, center, false, offsets, coeffs, init);
        proof {
            lemma_sparse_sum_bound(
                channels[channel as int]@,
                center as int,
                false,
                offsets@,
                coeffs@,
                coeffs.len() as nat,
            );
            assert(coeffs.len() * 0x4000_0000 <= 0x3fff_ffff_c000_0000) by (nonlinear_arith)
                requires
                    coeffs.len() < 0x1_0000_0000,
            ;
        }
        let sample = q15_acc_to_i16(acc);
        output.push(sample);
        proof {
            assert(full.subrange(0, channel + 1) =~= full.subrange(0, channel as int).push(sample));
        }
        channel = channel + 1;
    }
    assert(full.subrange(0, channels.len() as int) =~= full);
}

/// Renders output frame `output_frame` of the exact 2x downsampler into
/// `output`: the half-band filter centred on input frame `2 * output_frame`,
/// with `center_coeff` on the centre tap and `coeffs` on the taps at
/// `-offsets`.
pub fn render_down2_frame_q15(
    channels: &Vec<RingBuffer<i16>>,
    output_frame: i64,
    center_coeff: i16,
    offsets: &[i64],
    coeffs: &[i16],
    output: &mut Vec<i16>,
)
    requires
        0 <= output_frame <= i64::MAX / 2,
        offsets.len() == coeffs.len(),
        coeffs.len() < 0x1_0000_0000,
        taps_in_range(output_frame * 2, false, offsets@),
    ensures
        final(output)@ == old(output)@ + down2_frame(
            views(channels@),
            output_frame as int,
            center_coeff,
            offsets@,
            coeffs@,
        ),
{
    render_decimated_frame_q15(channels, output_frame * 2, center_coeff, offsets, coeffs, output);
}

/// The Q15 taps of an exact-ratio filter: the side taps at `side_offsets`
/// from the centre with `side_coeffs` (the odd offsets of the half-band
/// filter, or the offsets off the multiples of three of the third-band
/// filter), the same half-band taps seen from the upsampler (`up_offsets`,
/// `up_coeffs`, doubled gain), and the centre tap `center_coeff`.
#[derive(Debug, Clone)]
pub struct HalfBandTaps {
    pub side_offsets: Vec<i64>,
    pub side_coeffs: Vec<i16>,
    pub up_offsets: Vec<i64>,
    pub up_coeffs: Vec<i16>,
    pub center_coeff: i16,
}

impl HalfBandTaps {
    /// Equal-length tables of fewer than `2^32` taps, each within
    /// `half_taps` frames of the centre.
    pub open spec fn wf(&self, half_taps: int) -> bool {
        &&& half_taps >= 0
        &&& self.side_offsets.len() == self.side_coeffs.len()
        &&& self.up_offsets.len() == self.up_coeffs.len()
        &&& self.side_coeffs.len() < 0x1_0000_0000
        &&& self.up_coeffs.len() < 0x1_0000_0000
        &&& forall|i: int|
            0 <= i < self.side_offsets.len() ==> -half_taps <= #[trigger] self.side_offsets[i]
                <= half_taps
        &&& forall|i: int|
            0 <= i < self.up_offsets.len() ==> -half_taps <= #[trigger] self.up_offsets[i]
                <= half_taps
    }
}

/// The input frame the filter is centred on for output frame `k`.
pub open spec fn exact_center(ratio: SpecialRatio, k: int) -> int {
    match ratio {
        SpecialRatio::Up2 => k / 2,
        SpecialRatio::Down3 => 3 * k,
        _ => 2 * k,
    }
}

/// Output frame `k` of an exact-ratio stream.
pub open spec fn exact_frame(
    channels: Seq<RingView<i16>>,
    ratio: SpecialRatio,
    k: int,
    taps: HalfBandTaps,
) -> Seq<i16> {
    match ratio {
        SpecialRatio::Up2 => up2_frame(channels, k, taps.up_offsets@, taps.up_coeffs@),
        SpecialRatio::Down3 => down3_frame(
            channels,
            k,
            taps.center_coeff,
            taps.side_offsets@,
            taps.side_coeffs@,
        ),
        _ => down2_frame(channels, k, taps.center_coeff, taps.side_offsets@, taps.side_coeffs@),
    }
}

/// Output frames `first .. last` of an exact-ratio stream, interleaved.
pub open spec fn exact_frames(
    channels: Seq<RingView<i16>>,
    ratio: SpecialRatio,
    first: int,
    last: int,
    taps: HalfBandTaps,
) -> Seq<i16>
    decreases last - first,
{
    if last <= first {
        Seq::empty()
    } else {
        exact_frames(channels, ratio, first, last - 1, taps) + exact_frame(
            channels,
            ratio,
            last - 1,
            taps,
        )
    }
}

/// Output frame `k` can be rendered before the end of the stream: the input
/// reaches half a filter past its centre.
pub open spec fn exact_ready(ratio: SpecialRatio, k: int, half_taps: int, total_input_frames: int) -> bool {
    exact_center(ratio, k) + half_taps < total_input_frames
}

/// Output frames a finished exact-ratio stream of `total_input_frames`
/// frames holds: twice as many when upsampling, a half or a third (rounded
/// up) when downsampling.
pub open spec fn exact_flush_frames(ratio: SpecialRatio, total_input_frames: int) -> int {
    match ratio {
        SpecialRatio::Up2 => 2 * total_input_frames,
        SpecialRatio::Down3 => (total_input_frames + 2) / 3,
        _ => (total_input_frames + 1) / 2,
    }
}

/// Renders every output frame of an exact-ratio stream that is ready,
/// starting at output frame `output_frames_emitted`, and returns the next
/// output frame number.
///
/// While streaming (`flush == false`) a frame is ready when the input
/// reaches half a filter past its centre; when finishing (`flush == true`)
/// frames are rendered up to the full output length of the stream, reading
/// silence past the end of the input.
pub fn render_exact_ratio_available(
    channels: &Vec<RingBuffer<i16>>,
    ratio: SpecialRatio,
    taps: &HalfBandTaps,
    half_taps: usize,
    total_input_frames: i64,
    output_frames_emitted: i64,
    flush: bool,
    output: &mut Vec<i16>,
) -> (next: i64)
    requires
        ratio != SpecialRatio::General,
        taps.wf(half_taps as int),
        0 <= total_input_frames <= 0x1000_0000_0000_0000,
        0 <= output_frames_emitted <= 0x2000_0000_0000_0000,
        half_taps <= 0x1_0000_0000,
    ensures
        next >= output_frames_emitted,
        flush ==> next == (if output_frames_emitted < exact_flush_frames(ratio, total_input_frames as int) {
            exact_flush_frames(ratio, total_input_frames as int)
        } else {
            output_frames_emitted as int
        }),
        !flush ==> {
            &&& forall|k: int|
                output_frames_emitted <= k < next ==> #[trigger] exact_ready(
                    ratio,
                    k,
                    half_taps as int,
                    total_input_frames as int,
                )
            &&& !exact_ready(ratio, next as int, half_taps as int, total_input_frames as int)
        },
        final(output)@ == old(output)@ + exact_frames(
            views(channels@),
            ratio,
            output_frames_emitted as int,
            next as int,
            *taps,
        ),
{
    let out_frames: i64 = match ratio {
        SpecialRatio::Up2 => 2 * total_input_frames,
        SpecialRatio::Down3 => (total_input_frames + 2) / 3,
        _ => (total_input_frames + 1) / 2,
    };
    let ghost old_output = output@;
    let mut k = output_frames_emitted;
    loop
        invariant_except_break
            ratio != SpecialRatio::General,
            taps.wf(half_taps as int),
            0 <= total_input_frames <= 0x1000_0000_0000_0000,
            0 <= output_frames_emitted <= 0x2000_0000_0000_0000,
            half_taps <= 0x1_0000_0000,
            out_frames == exact_flush_frames(ratio, total_input_frames as int),
            output_frames_emitted <= k,
            k <= 0x2000_0000_0000_0000,
            flush ==> k <= output_frames_emitted || k <= out_frames,
            !flush ==> forall|j: int|
                output_frames_emitted <= j < k ==> #[trigger] exact_ready(
                    ratio,
                    j,
                    half_taps as int,
                    total_input_frames as int,
                ),
            output@ == old_output + exact_frames(views(channels@), ratio, output_frames_emitted as int, k as int, *taps),
        ensures
            output_frames_emitted <= k,
            flush ==> k == (if output_frames_emitted < out_frames {
                out_frames as int
            } else {
                output_frames_emitted as int
            }),
            !flush ==> {
                &&& forall|j: int|
                    output_frames_emitted <= j < k ==> #[trigger] exact_ready(
                        ratio,
                        j,
                        half_taps as int,
                        total_input_frames as int,
                    )
                &&& !exact_ready(ratio, k as int, half_taps as int, total_input_frames as int)
            },
            output@ == old_output + exact_frames(views(channels@), ratio, output_frames_emitted as int, k as int, *taps),
        decreases (if flush {
            out_frames - k
        } else {
            2 * total_input_frames - k
        }),
    {
        let center: i64 = match ratio {
            SpecialRatio::Up2 => k / 2,
            SpecialRatio::Down3 => 3 * k,
            _ => 2 * k,
        };
        let go = if flush {
            k < out_frames
        } else {
            center + (half_taps as i64) < total_input_frames
        };
        if !go {
            break;
        }
        let ghost before = output@;
        match ratio {
            SpecialRatio::Up2 => {
                proof {
                    assert forall|i: int| 0 <= i < taps.up_offsets@.len() implies i64::MIN
                        <= tap_frame(k / 2, true, #[trigger] taps.up_offsets@[i] as int) <= i64::MAX by {
                        assert(-(half_taps as int) <= taps.up_offsets@[i] <= half_taps);
                    }
                }
                render_up2_frame_q15(
                    channels,
                    k,
                    taps.up_offsets.as_slice(),
                    taps.up_coeffs.as_slice(),
                    output,
                );
            },
            _ => {
                proof {
                    assert forall|i: int| 0 <= i < taps.side_offsets@.len() implies i64::MIN
                        <= tap_frame(center as int, false, #[trigger] taps.side_offsets@[i] as int)
                        <= i64::MAX by {
                        assert(-(half_taps as int) <= taps.side_offsets@[i] <= half_taps);
                    }
                }
                render_decimated_frame_q15(
                    channels,
                    center,
                    taps.center_coeff,
                    taps.side_offsets.as_slice(),
                    taps.side_coeffs.as_slice(),
                    output,
                );
            },
        }
        proof {
            assert(exact_frames(views(channels@), ratio, output_frames_emitted as int, k + 1, *taps)
                == exact_frames(views(channels@), ratio, output_frames_emitted as int, k as int, *taps)
                + exact_frame(views(channels@), ratio, k as int, *taps));
            assert(output@ == old_output + exact_frames(views(channels@), ratio, output_frames_emitted as int, k + 1, *taps));
        }
        k = k + 1;
    }
    k
}

impl HalfBandTaps {
    /// Checks the table shape that the renderers rely on.
    pub fn check(&self, half_taps: usize) -> (ok: bool)
        ensures
            ok == self.wf(half_taps as int),
    {
        if self.side_offsets.len() != self.side_coeffs.len() || self.up_offsets.len()
            != self.up_coeffs.len() || self.side_coeffs.len() as u64 >= 0x1_0000_0000
            || self.up_coeffs.len() as u64 >= 0x1_0000_0000 {
            return false;
        }
        let bound = half_taps as i128;
        let mut i: usize = 0;
        while i < self.side_offsets.len()
            invariant
                bound == half_taps,
                0 <= i <= self.side_offsets.len(),
                forall|j: int|
                    0 <= j < i ==> -half_taps <= #[trigger] self.side_offsets@[j] <= half_taps,
            decreases self.side_offsets.len() - i,
        {
            if (self.side_offsets[i] as i128) < -bound || (self.side_offsets[i] as i128) > bound {
                return false;
            }
            i = i + 1;
        }
        let mut i: usize = 0;
        while i < self.up_offsets.len()
            invariant
                bound == half_taps,
                0 <= i <= self.up_offsets.len(),
                forall|j: int|
                    0 <= j < i ==> -half_taps <= #[trigger] self.up_offsets@[j] <= half_taps,
            decreases self.up_offsets.len() - i,
        {
            if (self.up_offsets[i] as i128) < -bound || (self.up_offsets[i] as i128) > bound {
                return false;
            }
            i = i + 1;
        }
        true
    }
}

/// Two sets of channel histories read the same samples at every frame of
/// `lo ..= hi`.
pub open spec fn views_agree(v1: Seq<RingView<i16>>, v2: Seq<RingView<i16>>, lo: int, hi: int) -> bool {
    &&& v1.len() == v2.len()
    &&& forall|c: int, f: int|
        0 <= c < v1.len() && lo <= f <= hi ==> #[trigger] sample_or(v1[c], f, 0i16) == sample_or(
            v2[c],
            f,
            0i16,
        )
}

proof fn lemma_sparse_sum_agree(
    r1: RingView<i16>,
    r2: RingView<i16>,
    base: int,
    forward: bool,
    offsets: Seq<i64>,
    coeffs: Seq<i16>,
    n: nat,
    lo: int,
    hi: int,
)
    requires
        n <= offsets.len(),
        forall|i: int|
            0 <= i < n ==> lo <= #[trigger] tap_frame(base, forward, offsets[i] as int) <= hi,
        forall|f: int| lo <= f <= hi ==> #[trigger] sample_or(r1, f, 0i16) == sample_or(r2, f, 0i16),
    ensures
        sparse_sum(r1, base, forward, offsets, coeffs, n) == sparse_sum(
            r2,
            base,
            forward,
            offsets,
            coeffs,
            n,
        ),
    decreases n,
{
    if n > 0 {
        lemma_sparse_sum_agree(r1, r2, base, forward, offsets, coeffs, (n - 1) as nat, lo, hi);
        let f = tap_frame(base, forward, offsets[n - 1] as int);
        assert(lo <= f <= hi);
        assert(sample_or(r1, f, 0i16) == sample_or(r2, f, 0i16));
    }
}

/// An exact-ratio output frame only reads input within half a filter of its
/// centre, so histories that agree there render it identically.
pub proof fn lemma_exact_frame_agree(
    v1: Seq<RingView<i16>>,
    v2: Seq<RingView<i16>>,
    ratio: SpecialRatio,
    k: int,
    taps: HalfBandTaps,
    half_taps: int,
)
    requires
        taps.wf(half_taps),
        ratio != SpecialRatio::General,
        views_agree(v1, v2, exact_center(ratio, k) - half_taps, exact_center(ratio, k) + half_taps),
    ensures
        exact_frame(v1, ratio, k, taps) == exact_frame(v2, ratio, k, taps),
{
    let lo = exact_center(ratio, k) - half_taps;
    let hi = exact_center(ratio, k) + half_taps;
    assert(half_taps >= 0) by {
        if half_taps < 0 {
            assert(false);
        }
    }
    match ratio {
        SpecialRatio::Up2 => {
            assert forall|c: int| 0 <= c < v1.len() implies #[trigger] exact_frame(v1, ratio, k, taps)[c]
                == exact_frame(v2, ratio, k, taps)[c] by {
                assert(sample_or(v1[c], k / 2, 0i16) == sample_or(v2[c], k / 2, 0i16));
                assert forall|f: int| lo <= f <= hi implies #[trigger] sample_or(v1[c], f, 0i16)
                    == sample_or(v2[c], f, 0i16) by {
                    assert(sample_or(v1[c], f, 0i16) == sample_or(v2[c], f, 0i16));
                }
                assert forall|i: int| 0 <= i < taps.up_offsets@.len() implies lo <= #[trigger] tap_frame(
                    k / 2,
                    true,
                    taps.up_offsets@[i] as int,
                ) <= hi by {
                    assert(-half_taps <= taps.up_offsets@[i] <= half_taps);
                }
                lemma_sparse_sum_agree(
                    v1[c],
                    v2[c],
                    k / 2,
                    true,
                    taps.up_offsets@,
                    taps.up_coeffs@,
                    taps.up_coeffs@.len(),
                    lo,
                    hi,
                );
            }
        },
        _ => {
            let center = exact_center(ratio, k);
            assert(exact_frame(v1, ratio, k, taps) == decimated_frame(
                v1,
                center,
                taps.center_coeff,
                taps.side_offsets@,
                taps.side_coeffs@,
            ));
            assert(exact_frame(v2, ratio, k, taps) == decimated_frame(
                v2,
                center,
                taps.center_coeff,
                taps.side_offsets@,
                taps.side_coeffs@,
            ));
            assert forall|c: int| 0 <= c < v1.len() implies #[trigger] exact_frame(v1, ratio, k, taps)[c]
                == exact_frame(v2, ratio, k, taps)[c] by {
                assert(sample_or(v1[c], center, 0i16) == sample_or(v2[c], center, 0i16));
                assert forall|f: int| lo <= f <= hi implies #[trigger] sample_or(v1[c], f, 0i16)
                    == sample_or(v2[c], f, 0i16) by {
                    assert(sample_or(v1[c], f, 0i16) == sample_or(v2[c], f, 0i16));
                }
                assert forall|i: int| 0 <= i < taps.side_offsets@.len() implies lo <= #[trigger] tap_frame(
                    center,
                    false,
                    taps.side_offsets@[i] as int,
                ) <= hi by {
                    assert(-half_taps <= taps.side_offsets@[i] <= half_taps);
                }
                lemma_sparse_sum_agree(
                    v1[c],
                    v2[c],
                    center,
                    false,
                    taps.side_offsets@,
                    taps.side_coeffs@,
                    taps.side_coeffs@.len(),
                    lo,
                    hi,
                );
            }
        },
    }
    assert(exact_frame(v1, ratio, k, taps) =~= exact_frame(v2, ratio, k, taps));
}

/// Output frames `first .. last` only read input from half a filter before
/// the centre of `first` to half a filter after the centre of `last - 1`.
pub proof fn lemma_exact_frames_agree(
    v1: Seq<RingView<i16>>,
    v2: Seq<RingView<i16>>,
    ratio: SpecialRatio,
    first: int,
    last: int,
    taps: HalfBandTaps,
    half_taps: int,
    lo: int,
    hi: int,
)
    requires
        taps.wf(half_taps),
        ratio != SpecialRatio::General,
        lo <= exact_center(ratio, first) - half_taps,
        first < last ==> exact_center(ratio, last - 1) + half_taps <= hi,
        views_agree(v1, v2, lo, hi),
    ensures
        exact_frames(v1, ratio, first, last, taps) == exact_frames(v2, ratio, first, last, taps),
    decreases last - first,
{
    if first < last {
        lemma_exact_center_monotone(ratio, first, last - 1);
        if first < last - 1 {
            lemma_exact_center_monotone(ratio, last - 2, last - 1);
        }
        lemma_exact_frames_agree(v1, v2, ratio, first, last - 1, taps, half_taps, lo, hi);
        assert(views_agree(
            v1,
            v2,
            exact_center(ratio, last - 1) - half_taps,
            exact_center(ratio, last - 1) + half_taps,
        ));
        lemma_exact_frame_agree(v1, v2, ratio, last - 1, taps, half_taps);
    }
}

/// Later output frames are centred no earlier.
pub proof fn lemma_exact_center_monotone(ratio: SpecialRatio, j: int, k: int)
    requires
        j <= k,
    ensures
        exact_center(ratio, j) <= exact_center(ratio, k),
{
    match ratio {
        SpecialRatio::Up2 => {
            vstd::arithmetic::div_mod::lemma_div_is_ordered(j, k, 2);
        },
        _ => {},
    }
}

/// Rendering `first .. middle` and then `middle .. last` gives the frames of
/// `first .. last`.
pub proof fn lemma_exact_frames_split(
    v: Seq<RingView<i16>>,
    ratio: SpecialRatio,
    first: int,
    middle: int,
    last: int,
    taps: HalfBandTaps,
)
    requires
        first <= middle <= last,
    ensures
        exact_frames(v, ratio, first, middle, taps) + exact_frames(v, ratio, middle, last, taps)
            == exact_frames(v, ratio, first, last, taps),
    decreases last - middle,
{
    if middle < last {
        lemma_exact_frames_split(v, ratio, first, middle, last - 1, taps);
        assert(exact_frames(v, ratio, first, middle, taps) + exact_frames(
            v,
            ratio,
            middle,
            last,
            taps,
        ) =~= exact_frames(v, ratio, first, last, taps));
    } else {
        assert(exact_frames(v, ratio, middle, last, taps) =~= Seq::<i16>::empty());
        assert(exact_frames(v, ratio, first, middle, taps) + Seq::<i16>::empty() =~= exact_frames(
            v,
            ratio,
            first,
            middle,
            taps,
        ));
    }
}

/// Each output frame holds one sample per channel.
pub proof fn lemma_exact_frames_len(
    v: Seq<RingView<i16>>,
    ratio: SpecialRatio,
    first: int,
    last: int,
    taps: HalfBandTaps,
)
    requires
        first <= last,
    ensures
        exact_frames(v, ratio, first, last, taps).len() == (last - first) * v.len(),
    decreases last - first,
{
    if first < last {
        lemma_exact_frames_len(v, ratio, first, last - 1, taps);
        assert(exact_frame(v, ratio, last - 1, taps).len() == v.len());
        assert((last - 1 - first) * v.len() + v.len() == (last - first) * v.len()) by (nonlinear_arith);
    } else {
        assert((last - first) * v.len() == 0) by (nonlinear_arith)
            requires
                first == last,
        ;
    }
}

} // verus!
