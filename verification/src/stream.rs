use vstd::prelude::*;

use crate::backend::SelectedBackend;
use crate::error::{frame_alignment_error, Error};
use crate::history::{
    append_input, deinterleaved, discard_before, lemma_deinterleave_concat, sample_or, views,
};
use crate::plan::{
    required_output_capacity, saturating_mul_usize, spec_capacity_frames,
    spec_expected_output_frames, spec_special_ratio, ProcessStats, SpecialRatio,
};
use crate::render::{
    exact_center, exact_flush_frames, exact_frame, exact_frames, exact_ready,
    lemma_exact_center_monotone, lemma_exact_frame_agree, lemma_exact_frames_agree,
    lemma_exact_frames_len, lemma_exact_frames_split, lemma_silence_renders_silence,
    render_exact_ratio_available, all_silent, HalfBandTaps,
};
use crate::ring::{RingBuffer, RingView};

verus! {

/// Output frames of an exact-ratio stream that are ready once
/// `total_input_frames` input frames have arrived: those whose filter does
/// not reach past the input.
pub open spec fn ready_frames(ratio: SpecialRatio, half_taps: int, total_input_frames: int) -> int {
    if total_input_frames <= half_taps {
        0
    } else {
        match ratio {
            SpecialRatio::Up2 => 2 * (total_input_frames - half_taps),
            SpecialRatio::Down3 => (total_input_frames - half_taps + 2) / 3,
            _ => (total_input_frames - half_taps + 1) / 2,
        }
    }
}

/// The per-channel inputs of a stream seen as histories that hold every
/// frame: frame `f` of channel `c` is `input[c][f]`, silence outside.
pub open spec fn model_views(input: Seq<Seq<i16>>) -> Seq<RingView<i16>> {
    Seq::new(
        input.len(),
        |c: int| RingView { start: 0, frames: input[c], capacity: input[c].len() + 1 },
    )
}

/// Each channel of `a` continued by the same channel of `b`.
pub open spec fn append_channels(a: Seq<Seq<i16>>, b: Seq<Seq<i16>>) -> Seq<Seq<i16>> {
    Seq::new(a.len(), |c: int| a[c] + b[c])
}

/// Interleaved `samples` split into `channels` per-channel sequences.
pub open spec fn deinterleave_all(samples: Seq<i16>, channels: nat) -> Seq<Seq<i16>> {
    Seq::new(channels, |c: int| deinterleaved(samples, channels, c))
}

/// `channels` empty per-channel sequences.
pub open spec fn empty_channels(channels: nat) -> Seq<Seq<i16>> {
    Seq::new(channels, |c: int| Seq::<i16>::empty())
}

/// Every channel of `input` holds `frames` frames.
pub open spec fn uniform(input: Seq<Seq<i16>>, frames: int) -> bool {
    forall|c: int| 0 <= c < input.len() ==> (#[trigger] input[c]).len() == frames
}

/// The most input frames one stream may take: `2^60`, or a quarter of the
/// address space on targets where that is smaller.
pub open spec fn stream_frame_limit() -> int {
    if usize::MAX >= 0x4000_0000_0000_0000 {
        0x1000_0000_0000_0000
    } else {
        (usize::MAX / 4) as int
    }
}

/// Output frame `k` is ready exactly when `k < ready_frames`, and a stream
/// never has more ready frames than its full output.
pub proof fn lemma_ready_frames(ratio: SpecialRatio, half_taps: int, total: int, k: int)
    requires
        ratio != SpecialRatio::General,
        half_taps >= 0,
        total >= 0,
        k >= 0,
    ensures
        exact_ready(ratio, k, half_taps, total) <==> k < ready_frames(ratio, half_taps, total),
        0 <= ready_frames(ratio, half_taps, total) <= exact_flush_frames(ratio, total),
        exact_center(ratio, ready_frames(ratio, half_taps, total)) - half_taps - 2 <= total,
{
}

/// More input never makes fewer frames ready.
pub proof fn lemma_ready_frames_monotone(ratio: SpecialRatio, half_taps: int, t1: int, t2: int)
    requires
        ratio != SpecialRatio::General,
        half_taps >= 0,
        0 <= t1 <= t2,
    ensures
        ready_frames(ratio, half_taps, t1) <= ready_frames(ratio, half_taps, t2),
{
}

/// A rendered frame never changes: while output frame `k` is ready, its
/// filter only reads input that has already arrived, so any later input
/// leaves it as it was.
pub proof fn lemma_rendered_frames_are_final(
    a: Seq<Seq<i16>>,
    b: Seq<Seq<i16>>,
    ratio: SpecialRatio,
    taps: HalfBandTaps,
    half_taps: int,
    total: int,
    k: int,
)
    requires
        ratio != SpecialRatio::General,
        taps.wf(half_taps),
        a.len() == b.len(),
        uniform(a, total),
        0 <= k < ready_frames(ratio, half_taps, total),
    ensures
        exact_frame(model_views(a), ratio, k, taps) == exact_frame(
            model_views(append_channels(a, b)),
            ratio,
            k,
            taps,
        ),
{
    lemma_ready_frames(ratio, half_taps, total, k);
    let lo = exact_center(ratio, k) - half_taps;
    let hi = exact_center(ratio, k) + half_taps;
    let v1 = model_views(a);
    let v2 = model_views(append_channels(a, b));
    assert forall|c: int, f: int| 0 <= c < v1.len() && lo <= f <= hi implies #[trigger] sample_or(
        v1[c],
        f,
        0i16,
    ) == sample_or(v2[c], f, 0i16) by {
        assert(f < total);
        assert(a[c].len() == total);
        if 0 <= f {
            assert((a[c] + b[c])[f] == a[c][f]);
        }
    }
    lemma_exact_frame_agree(v1, v2, ratio, k, taps, half_taps);
}

/// Rendered frames are final for a whole run `first .. last` of ready
/// frames.
pub proof fn lemma_rendered_run_is_final(
    a: Seq<Seq<i16>>,
    b: Seq<Seq<i16>>,
    ratio: SpecialRatio,
    taps: HalfBandTaps,
    half_taps: int,
    total: int,
    first: int,
    last: int,
)
    requires
        ratio != SpecialRatio::General,
        taps.wf(half_taps),
        a.len() == b.len(),
        uniform(a, total),
        0 <= first <= last <= ready_frames(ratio, half_taps, total),
    ensures
        exact_frames(model_views(a), ratio, first, last, taps) == exact_frames(
            model_views(append_channels(a, b)),
            ratio,
            first,
            last,
            taps,
        ),
    decreases last - first,
{
    if first < last {
        lemma_rendered_run_is_final(a, b, ratio, taps, half_taps, total, first, last - 1);
        lemma_rendered_frames_are_final(a, b, ratio, taps, half_taps, total, last - 1);
    }
}

/// Splitting interleaved input at a frame boundary splits every channel at
/// the same place.
pub proof fn lemma_deinterleave_all_concat(x: Seq<i16>, y: Seq<i16>, channels: nat)
    requires
        channels > 0,
        x.len() % channels == 0,
        y.len() % channels == 0,
    ensures
        deinterleave_all(x + y, channels) == append_channels(
            deinterleave_all(x, channels),
            deinterleave_all(y, channels),
        ),
{
    assert forall|c: int| 0 <= c < channels implies #[trigger] deinterleave_all(x + y, channels)[c]
        == append_channels(deinterleave_all(x, channels), deinterleave_all(y, channels))[c] by {
        lemma_deinterleave_concat(x, y, channels, c);
    }
    assert(deinterleave_all(x + y, channels) =~= append_channels(
        deinterleave_all(x, channels),
        deinterleave_all(y, channels),
    ));
}

/// A finished exact-ratio stream holds as many frames as the general frame
/// count `ceil(frames * output_rate / input_rate)` promises.
pub proof fn lemma_flush_frames_match_expected_output(total: int)
    requires
        total >= 0,
    ensures
        exact_flush_frames(SpecialRatio::Up2, total) == spec_expected_output_frames(
            total,
            8000,
            16000,
        ),
        exact_flush_frames(SpecialRatio::Down2, total) == spec_expected_output_frames(
            total,
            16000,
            8000,
        ),
        exact_flush_frames(SpecialRatio::Down3, total) == spec_expected_output_frames(
            total,
            24000,
            8000,
        ),
{
    assert((total * 8000 + 24000 - 1) / 24000 == (total + 2) / 3) by (nonlinear_arith)
        requires
            total >= 0,
    ;
    assert((total * 16000 + 8000 - 1) / 8000 == 2 * total) by (nonlinear_arith)
        requires
            total >= 0,
    ;
    assert((total * 8000 + 16000 - 1) / 16000 == (total + 1) / 2) by (nonlinear_arith)
        requires
            total >= 0,
    ;
}

/// What an exact-ratio stream has seen and produced.
pub ghost struct HalfBandStreamView {
    pub ratio: SpecialRatio,
    pub half_taps: int,
    pub taps: HalfBandTaps,
    pub backend: SelectedBackend,
    pub channels: nat,
    /// Every input frame so far, per channel.
    pub input: Seq<Seq<i16>>,
    pub total: int,
    /// Output frames rendered so far.
    pub emitted: int,
    pub finished: bool,
}

impl HalfBandStreamView {
    /// What every stream satisfies: an exact ratio, well-formed taps, one
    /// input sequence of `total` frames per channel, and exactly the ready
    /// frames rendered (all of them once finished).
    pub open spec fn wf(self) -> bool {
        &&& self.ratio != SpecialRatio::General
        &&& self.taps.wf(self.half_taps)
        &&& self.channels >= 1
        &&& self.input.len() == self.channels
        &&& self.total >= 0
        &&& uniform(self.input, self.total)
        &&& !self.finished ==> self.emitted == ready_frames(self.ratio, self.half_taps, self.total)
        &&& self.finished ==> self.emitted == exact_flush_frames(self.ratio, self.total)
    }
}

/// The stream after `process` takes `input`, a whole number of frames,
/// before `finish`: the input grows by the new frames and every ready frame
/// is rendered.
pub open spec fn processed(s: HalfBandStreamView, input: Seq<i16>) -> HalfBandStreamView {
    let frames = input.len() as int / s.channels as int;
    HalfBandStreamView {
        input: append_channels(s.input, deinterleave_all(input, s.channels)),
        total: s.total + frames,
        emitted: ready_frames(s.ratio, s.half_taps, s.total + frames),
        ..s
    }
}

/// The interleaved samples `process` renders for `input`: the output
/// frames from the first one not yet rendered up to the first one that is
/// not ready, computed from all input so far.
pub open spec fn rendered(s: HalfBandStreamView, input: Seq<i16>) -> Seq<i16> {
    let after = processed(s, input);
    exact_frames(model_views(after.input), s.ratio, s.emitted, after.emitted, s.taps)
}

/// What `process` reports for `input`, a whole number of frames, before
/// `finish`.
pub open spec fn process_stats(s: HalfBandStreamView, input: Seq<i16>) -> ProcessStats {
    ProcessStats {
        input_frames: (input.len() as int / s.channels as int) as usize,
        output_frames: (processed(s, input).emitted - s.emitted) as usize,
        backend: s.backend,
    }
}

/// Output buffer size, in samples, that `required_output_capacity` gives
/// for `frames` more input frames: `spec_capacity_frames` frames of every
/// channel, saturating at `usize::MAX`.
pub open spec fn capacity_samples(s: HalfBandStreamView, frames: int) -> int {
    saturating_mul_usize(
        spec_capacity_frames(frames, ratio_rates(s.ratio).0, ratio_rates(s.ratio).1, s.half_taps),
        s.channels as int,
    )
}

/// Feeding a stream `a` and then `b` leaves it as feeding it `a + b` at
/// once, and the two calls render, together, exactly what the one call
/// renders.
pub proof fn lemma_process_chunked_matches_one_shot(s: HalfBandStreamView, a: Seq<i16>, b: Seq<i16>)
    requires
        s.wf(),
        !s.finished,
        a.len() % s.channels == 0,
        b.len() % s.channels == 0,
    ensures
        processed(processed(s, a), b) == processed(s, a + b),
        rendered(s, a) + rendered(processed(s, a), b) == rendered(s, a + b),
{
    let n = s.channels as int;
    let da = deinterleave_all(a, s.channels);
    let db = deinterleave_all(b, s.channels);
    let na = a.len() as int / n;
    let nb = b.len() as int / n;
    vstd::arithmetic::div_mod::lemma_fundamental_div_mod(a.len() as int, n);
    vstd::arithmetic::div_mod::lemma_fundamental_div_mod(b.len() as int, n);
    assert((a + b).len() as int == n * (na + nb)) by (nonlinear_arith)
        requires
            a.len() == n * na,
            b.len() == n * nb,
    ;
    vstd::arithmetic::div_mod::lemma_div_multiples_vanish(na + nb, n);
    assert((a + b).len() as int / n == na + nb);
    lemma_deinterleave_all_concat(a, b, s.channels);
    let xa = append_channels(s.input, da);
    let xab = append_channels(xa, db);
    assert(xab =~= append_channels(s.input, deinterleave_all(a + b, s.channels))) by {
        assert forall|c: int| 0 <= c < s.channels implies #[trigger] xab[c] == append_channels(
            s.input,
            deinterleave_all(a + b, s.channels),
        )[c] by {
            assert(deinterleave_all(a + b, s.channels)[c] == da[c] + db[c]);
            assert(xab[c] == (s.input[c] + da[c]) + db[c]);
            assert((s.input[c] + da[c]) + db[c] =~= s.input[c] + (da[c] + db[c]));
        }
    }
    let t = s.total;
    assert forall|c: int| 0 <= c < xa.len() implies (#[trigger] xa[c]).len() == t + na by {
        assert(s.input[c].len() == t);
        assert(da[c].len() == na);
    }
    assert forall|c: int| 0 <= c < db.len() implies (#[trigger] db[c]).len() == nb by {}
    let e = s.emitted;
    let ra = ready_frames(s.ratio, s.half_taps, t + na);
    let rab = ready_frames(s.ratio, s.half_taps, t + na + nb);
    lemma_ready_frames_monotone(s.ratio, s.half_taps, t, t + na);
    lemma_ready_frames_monotone(s.ratio, s.half_taps, t + na, t + na + nb);
    lemma_ready_frames(s.ratio, s.half_taps, t, 0);
    lemma_rendered_run_is_final(xa, db, s.ratio, s.taps, s.half_taps, t + na, e, ra);
    lemma_exact_frames_split(model_views(xab), s.ratio, e, ra, rab, s.taps);
}

/// Every sample of every channel is zero.
pub open spec fn all_zero(input: Seq<Seq<i16>>) -> bool {
    forall|c: int, f: int| 0 <= c < input.len() && 0 <= f < input[c].len() ==> #[trigger] input[c][f]
        == 0
}

/// Silent input renders silent output: every sample of any run of output
/// frames computed from silent channels is zero.
pub proof fn lemma_silent_input_renders_silence(
    input: Seq<Seq<i16>>,
    ratio: SpecialRatio,
    first: int,
    last: int,
    taps: HalfBandTaps,
)
    requires
        ratio != SpecialRatio::General,
        all_zero(input),
    ensures
        forall|i: int|
            0 <= i < exact_frames(model_views(input), ratio, first, last, taps).len()
                ==> #[trigger] exact_frames(model_views(input), ratio, first, last, taps)[i] == 0,
    decreases last - first,
{
    let v = model_views(input);
    if first < last {
        lemma_silent_input_renders_silence(input, ratio, first, last - 1, taps);
        assert(all_silent(v)) by {
            assert forall|c: int, f: int| 0 <= c < v.len() implies #[trigger] sample_or(v[c], f, 0i16)
                == 0 by {
                if 0 <= f < input[c].len() {
                    assert(input[c][f] == 0);
                }
            }
        }
        let k = last - 1;
        lemma_silence_renders_silence(
            v,
            exact_center(ratio, k),
            0,
            Seq::<i16>::empty(),
            k,
            taps.center_coeff,
            taps.up_offsets@,
            taps.up_coeffs@,
        );
        lemma_silence_renders_silence(
            v,
            exact_center(ratio, k),
            0,
            Seq::<i16>::empty(),
            k,
            taps.center_coeff,
            taps.side_offsets@,
            taps.side_coeffs@,
        );
        let frame = exact_frame(v, ratio, k, taps);
        assert(frame =~= Seq::new(v.len(), |c: int| 0i16));
        let all = exact_frames(v, ratio, first, last, taps);
        let before = exact_frames(v, ratio, first, k, taps);
        assert(all == before + frame);
        assert forall|i: int| 0 <= i < all.len() implies #[trigger] all[i] == 0 by {
            if i < before.len() {
                assert(all[i] == before[i]);
            } else {
                assert(all[i] == frame[i - before.len()]);
            }
        }
    }
}

/// A stream that has only been fed silence renders only silence, from
/// `process` as from `finish`, and stays a stream of silence.
pub proof fn lemma_silent_stream_stays_silent(s: HalfBandStreamView, a: Seq<i16>)
    requires
        s.wf(),
        all_zero(s.input),
        forall|i: int| 0 <= i < a.len() ==> a[i] == 0,
    ensures
        all_zero(processed(s, a).input),
        forall|i: int| 0 <= i < rendered(s, a).len() ==> #[trigger] rendered(s, a)[i] == 0,
        forall|i: int|
            0 <= i < exact_frames(
                model_views(s.input),
                s.ratio,
                s.emitted,
                exact_flush_frames(s.ratio, s.total),
                s.taps,
            ).len() ==> #[trigger] exact_frames(
                model_views(s.input),
                s.ratio,
                s.emitted,
                exact_flush_frames(s.ratio, s.total),
                s.taps,
            )[i] == 0,
{
    let x = processed(s, a).input;
    let d = deinterleave_all(a, s.channels);
    assert forall|c: int, f: int| 0 <= c < x.len() && 0 <= f < x[c].len() implies #[trigger] x[c][f]
        == 0 by {
        assert(x[c] == s.input[c] + d[c]);
        if f < s.input[c].len() {
            assert(x[c][f] == s.input[c][f]);
        } else {
            let g = f - s.input[c].len();
            assert(x[c][f] == d[c][g]);
            assert(d[c] == deinterleaved(a, s.channels, c));
            assert(0 <= g < a.len() as int / s.channels as int);
            assert(0 <= g * s.channels + c < a.len()) by (nonlinear_arith)
                requires
                    0 <= g < a.len() as int / s.channels as int,
                    0 <= c < s.channels,
                    s.channels > 0,
            {
                vstd::arithmetic::div_mod::lemma_fundamental_div_mod(a.len() as int, s.channels as int);
                assert(g + 1 <= a.len() as int / s.channels as int);
                assert((g + 1) * s.channels <= (a.len() as int / s.channels as int) * s.channels);
            }
        }
    }
    lemma_silent_input_renders_silence(x, s.ratio, s.emitted, processed(s, a).emitted, s.taps);
    lemma_silent_input_renders_silence(
        s.input,
        s.ratio,
        s.emitted,
        exact_flush_frames(s.ratio, s.total),
        s.taps,
    );
}

/// The input and output rates of an exact-ratio stream.
pub open spec fn ratio_rates(ratio: SpecialRatio) -> (int, int) {
    match ratio {
        SpecialRatio::Up2 => (8000, 16000),
        SpecialRatio::Down3 => (24000, 8000),
        _ => (16000, 8000),
    }
}

/// The rates a stream sizes its buffers by are the rates that select its
/// ratio: `special_ratio` maps them back to the stream's own ratio, and
/// output frames come `output_rate / input_rate` times as often as input
/// frames (twice for the upsampler, a half or a third for the
/// downsamplers), as `exact_flush_frames` counts them.
pub proof fn lemma_ratio_rates_select(ratio: SpecialRatio, total: int)
    requires
        ratio != SpecialRatio::General,
        total >= 0,
    ensures
        0 < ratio_rates(ratio).0 <= u32::MAX,
        0 < ratio_rates(ratio).1 <= u32::MAX,
        spec_special_ratio(ratio_rates(ratio).0 as u32, ratio_rates(ratio).1 as u32) == ratio,
        exact_flush_frames(ratio, total) == spec_expected_output_frames(
            total,
            ratio_rates(ratio).0,
            ratio_rates(ratio).1,
        ),
{
    lemma_flush_frames_match_expected_output(total);
}

/// The output frames one `process` call of `frames` input frames renders,
/// and those `finish` renders, fit in the `spec_capacity_frames` that
/// `required_output_capacity` sizes for.
pub proof fn lemma_capacity_covers_rendered(ratio: SpecialRatio, half_taps: int, total: int, frames: int)
    requires
        ratio != SpecialRatio::General,
        half_taps >= 0,
        total >= 0,
        frames >= 0,
    ensures
        ready_frames(ratio, half_taps, total + frames) - ready_frames(ratio, half_taps, total)
            <= spec_capacity_frames(frames, ratio_rates(ratio).0, ratio_rates(ratio).1, half_taps),
        exact_flush_frames(ratio, total) - ready_frames(ratio, half_taps, total)
            <= spec_capacity_frames(0, ratio_rates(ratio).0, ratio_rates(ratio).1, half_taps),
{
    let m = frames + half_taps + 2;
    let z = half_taps + 2;
    assert((m * 16000 + 8000 - 1) / 8000 == 2 * m) by (nonlinear_arith)
        requires
            m >= 0,
    ;
    assert((m * 8000 + 16000 - 1) / 16000 == (m + 1) / 2) by (nonlinear_arith)
        requires
            m >= 0,
    ;
    assert((z * 16000 + 8000 - 1) / 8000 == 2 * z) by (nonlinear_arith)
        requires
            z >= 0,
    ;
    assert((z * 8000 + 16000 - 1) / 16000 == (z + 1) / 2) by (nonlinear_arith)
        requires
            z >= 0,
    ;
    assert((m * 8000 + 24000 - 1) / 24000 == (m + 2) / 3) by (nonlinear_arith)
        requires
            m >= 0,
    ;
    assert((z * 8000 + 24000 - 1) / 24000 == (z + 2) / 3) by (nonlinear_arith)
        requires
            z >= 0,
    ;
}

/// The `i16` resampler for the exact ratios with a compact FIR filter
/// (8k <-> 16k at the half-band qualities, 24k -> 8k at every quality):
/// per-channel histories, the Q15 taps and the stream position.
#[derive(Clone)]
pub struct HalfBandStream {
    ratio: SpecialRatio,
    backend: SelectedBackend,
    taps: HalfBandTaps,
    half_taps: usize,
    filter_taps: usize,
    ring_capacity: usize,
    channels: Vec<RingBuffer<i16>>,
    total_input_frames: i64,
    output_frames_emitted: i64,
    finished: bool,
    input: Ghost<Seq<Seq<i16>>>,
}

impl View for HalfBandStream {
    type V = HalfBandStreamView;

    closed spec fn view(&self) -> HalfBandStreamView {
        HalfBandStreamView {
            ratio: self.ratio,
            half_taps: self.half_taps as int,
            taps: self.taps,
            backend: self.backend,
            channels: self.channels.len() as nat,
            input: self.input@,
            total: self.total_input_frames as int,
            emitted: self.output_frames_emitted as int,
            finished: self.finished,
        }
    }
}

impl HalfBandStream {
    /// The stream's internal consistency.
    pub closed spec fn wf(&self) -> bool {
        let h = self.half_taps as int;
        let e = self.output_frames_emitted as int;
        let t = self.total_input_frames as int;
        &&& self.ratio != SpecialRatio::General
        &&& self.taps.wf(h)
        &&& h <= 256
        &&& self.filter_taps == 2 * h + 1
        &&& self.ring_capacity >= 1
        &&& self.channels.len() >= 1
        &&& self.input@.len() == self.channels.len()
        &&& 0 <= t <= stream_frame_limit()
        &&& uniform(self.input@, t)
        &&& forall|c: int|
            0 <= c < self.channels.len() ==> {
                let r = (#[trigger] self.channels@[c])@;
                &&& r.wf()
                &&& r.end() == t
                &&& r.frames == self.input@[c].subrange(r.start, t)
                &&& (r.start == 0 || r.start <= exact_center(self.ratio, e) - h - 2)
            }
        &&& !self.finished ==> e == ready_frames(self.ratio, h, t)
        &&& self.finished ==> e == exact_flush_frames(self.ratio, t)
    }

    /// Starts a stream over the empty histories `channels`.
    pub fn new(
        ratio: SpecialRatio,
        backend: SelectedBackend,
        taps: HalfBandTaps,
        half_taps: usize,
        channels: Vec<RingBuffer<i16>>,
    ) -> (s: Self)
        requires
            ratio != SpecialRatio::General,
            taps.wf(half_taps as int),
            half_taps <= 256,
            channels.len() >= 1,
            forall|c: int|
                0 <= c < channels.len() ==> {
                    &&& (#[trigger] channels@[c])@.start == 0
                    &&& channels@[c]@.frames.len() == 0
                    &&& channels@[c]@.wf()
                },
        ensures
            s.wf(),
            s@.ratio == ratio,
            s@.backend == backend,
            s@.taps == taps,
            s@.half_taps == half_taps,
            s@.channels == channels.len(),
            s@.input == empty_channels(channels.len() as nat),
            s@.total == 0,
            s@.emitted == 0,
            !s@.finished,
    {
        let ring_capacity = channels[0].capacity();
        let s = HalfBandStream {
            ratio,
            backend,
            taps,
            half_taps,
            filter_taps: 2 * half_taps + 1,
            ring_capacity,
            channels,
            total_input_frames: 0,
            output_frames_emitted: 0,
            finished: false,
            input: Ghost(empty_channels(channels.len() as nat)),
        };
        proof {
            assert forall|c: int| 0 <= c < s.channels.len() implies {
                let r = (#[trigger] s.channels@[c])@;
                &&& r.wf()
                &&& r.end() == 0
                &&& r.frames == s.input@[c].subrange(r.start, 0)
                &&& (r.start == 0 || r.start <= exact_center(s.ratio, 0) - half_taps - 2)
            } by {
                assert(s.channels@[c]@.frames =~= s.input@[c].subrange(0, 0));
            }
        }
        s
    }

    /// A conservative output buffer size, in samples, for one `process` call
    /// of `input_frames` frames, which also holds what `finish` renders.
    pub fn required_output_capacity(&self, input_frames: usize) -> (n: usize)
        requires
            self.wf(),
            (input_frames + self@.half_taps + 2) * ratio_rates(self@.ratio).1 <= u64::MAX,
            spec_capacity_frames(
                input_frames as int,
                ratio_rates(self@.ratio).0,
                ratio_rates(self@.ratio).1,
                self@.half_taps,
            ) <= usize::MAX,
        ensures
            n == capacity_samples(self@, input_frames as int),
    {
        let (input_rate, output_rate): (u32, u32) = match self.ratio {
            SpecialRatio::Up2 => (8000, 16000),
            SpecialRatio::Down3 => (24000, 8000),
            _ => (16000, 8000),
        };
        let ghost x = input_frames + self.half_taps + 2;
        proof {
            assert(x <= i64::MAX) by (nonlinear_arith)
                requires
                    x * output_rate <= u64::MAX,
                    output_rate >= 8000,
            ;
            let frames = spec_capacity_frames(
                input_frames as int,
                input_rate as int,
                output_rate as int,
                self.half_taps as int,
            );
            assert(frames <= i64::MAX) by (nonlinear_arith)
                requires
                    frames == (x * output_rate + input_rate - 1) / (input_rate as int),
                    x * output_rate <= u64::MAX,
                    input_rate >= 8000,
                    x >= 0,
            ;
        }
        required_output_capacity(
            input_frames,
            input_rate,
            output_rate,
            self.channels.len(),
            self.half_taps,
        )
    }

    /// The view of a stream satisfies the view's own invariant.
    pub proof fn lemma_view_wf(&self)
        requires
            self.wf(),
        ensures
            self@.wf(),
    {
    }

    /// Input frames taken so far.
    pub fn total_input_frames(&self) -> (t: i64)
        ensures
            t == self@.total,
    {
        self.total_input_frames
    }

    /// Appends interleaved `input` and renders every output frame that has
    /// become ready.
    ///
    /// After `finish` this does nothing and reports no frames. Input that is
    /// not a whole number of frames is refused and changes nothing. Otherwise
    /// the input is recorded, and the output grows by the frames, computed
    /// from all input so far, from the first frame not yet rendered up to the
    /// first frame that is not ready.
    #[verifier::rlimit(40)]
    pub fn process(&mut self, input: &[i16], output: &mut Vec<i16>) -> (r: Result<ProcessStats, Error>)
        requires
            old(self).wf(),
            old(self)@.total + input.len() <= stream_frame_limit(),
        ensures
            final(self).wf(),
            old(self)@.finished ==> {
                &&& r == Ok::<ProcessStats, Error>(
                    (ProcessStats { input_frames: 0, output_frames: 0, backend: old(self)@.backend }),
                )
                &&& final(self)@ == old(self)@
                &&& final(output)@ == old(output)@
            },
            !old(self)@.finished && input.len() as int % old(self)@.channels as int != 0 ==> {
                &&& r == Err::<ProcessStats, Error>(
                    (Error::InputNotFrameAligned {
                        samples: input.len(),
                        channels: old(self)@.channels as usize,
                    }),
                )
                &&& final(self)@ == old(self)@
                &&& final(output)@ == old(output)@
            },
            !old(self)@.finished && input.len() as int % old(self)@.channels as int == 0 ==> {
                &&& final(self)@ == processed(old(self)@, input@)
                &&& final(output)@ == old(output)@ + rendered(old(self)@, input@)
                &&& rendered(old(self)@, input@).len() == (final(self)@.emitted
                    - old(self)@.emitted) * old(self)@.channels
                &&& r == Ok::<ProcessStats, Error>(process_stats(old(self)@, input@))
            },
    {
        if self.finished {
            return Ok(ProcessStats { input_frames: 0, output_frames: 0, backend: self.backend });
        }
        let ghost old_self = *self;
        let ghost h = self.half_taps as int;
        let ghost e0 = self.output_frames_emitted as int;
        let ghost t0 = self.total_input_frames as int;
        let count = self.channels.len();
        proof {
            assert forall|c: int| 0 <= c < count implies {
                &&& (#[trigger] self.channels@[c])@.frames.len() + input.len() + self.filter_taps
                    + 8 <= usize::MAX / 2 + 1
                &&& self.channels@[c]@.end() + input.len() < i64::MAX
            } by {
                assert(self.channels@[c]@.frames.len() <= t0);
            }
        }
        let frames = match append_input(&mut self.channels, input, self.filter_taps) {
            Ok(n) => n,
            Err(e) => {
                return Err(e);
            },
        };
        let ghost chunk = deinterleave_all(input@, count as nat);
        let ghost new_input = append_channels(self.input@, chunk);
        self.total_input_frames = self.total_input_frames + frames as i64;
        self.input = Ghost(new_input);
        let ghost t1 = self.total_input_frames as int;
        proof {
            vstd::arithmetic::div_mod::lemma_fundamental_div_mod(input.len() as int, count as int);
            assert forall|c: int| 0 <= c < count implies (#[trigger] self.channels@[c])@.frames
                == new_input[c].subrange(self.channels@[c]@.start, t1) by {
                let s = self.channels@[c]@.start;
                assert(old_self.channels@[c]@.frames == old_self.input@[c].subrange(s, t0));
                assert(new_input[c] == old_self.input@[c] + deinterleaved(input@, count as nat, c));
                assert(new_input[c].subrange(s, t1) =~= old_self.input@[c].subrange(s, t0)
                    + deinterleaved(input@, count as nat, c));
            }
            assert(uniform(new_input, t1));
            lemma_ready_frames(self.ratio, h, t0, 0);
            lemma_ready_frames(self.ratio, h, t1, 0);
            lemma_ready_frames_monotone(self.ratio, h, t0, t1);
        }
        let next = render_exact_ratio_available(
            &self.channels,
            self.ratio,
            &self.taps,
            self.half_taps,
            self.total_input_frames,
            self.output_frames_emitted,
            false,
            output,
        );
        proof {
            let r_t1 = ready_frames(self.ratio, h, t1);
            lemma_ready_frames(self.ratio, h, t1, next as int);
            if next < r_t1 {
                assert(exact_ready(self.ratio, next as int, h, t1));
            }
            if next > r_t1 {
                lemma_ready_frames(self.ratio, h, t1, r_t1);
                assert(exact_ready(self.ratio, r_t1, h, t1));
            }
            assert(next == r_t1);
            let v1 = views(self.channels@);
            let v2 = model_views(new_input);
            let lo = exact_center(self.ratio, e0) - h;
            let hi = exact_center(self.ratio, next as int) + h;
            assert forall|c: int, f: int| 0 <= c < v1.len() && lo <= f <= hi implies #[trigger] sample_or(
                v1[c],
                f,
                0i16,
            ) == sample_or(v2[c], f, 0i16) by {
                let r = self.channels@[c]@;
                assert(v1[c] == r);
                assert(r.frames == new_input[c].subrange(r.start, t1));
                assert(r.start == old_self.channels@[c]@.start);
                if 0 <= f && f < t1 && f >= r.start {
                    assert(r.frames[f - r.start] == new_input[c][f]);
                }
            }
            if e0 < next {
                lemma_exact_center_monotone(self.ratio, next - 1, next as int);
            }
            lemma_exact_frames_agree(v1, v2, self.ratio, e0, next as int, self.taps, h, lo, hi);
        }
        let emitted_before = self.output_frames_emitted;
        self.output_frames_emitted = next;
        let center: i64 = match self.ratio {
            SpecialRatio::Up2 => next / 2,
            SpecialRatio::Down3 => next * 3,
            _ => next * 2,
        };
        let keep_from = center - self.half_taps as i64 - 2;
        let ghost before_discard = self.channels@;
        discard_before(&mut self.channels, keep_from);
        proof {
            lemma_exact_center_monotone(self.ratio, e0, next as int);
            assert forall|c: int| 0 <= c < count implies {
                let r = (#[trigger] self.channels@[c])@;
                &&& r.wf()
                &&& r.end() == t1
                &&& r.frames == new_input[c].subrange(r.start, t1)
                &&& (r.start == 0 || r.start <= exact_center(self.ratio, next as int) - h - 2)
            } by {
                let old_r = before_discard[c]@;
                assert(old_r.frames == new_input[c].subrange(old_r.start, t1));
                assert(self.channels@[c]@ == old_r.discarded_before(keep_from as int));
                assert(self.channels@[c]@.frames =~= new_input[c].subrange(
                    self.channels@[c]@.start,
                    t1,
                ));
            }
            lemma_exact_frames_len(model_views(new_input), self.ratio, e0, next as int, self.taps);
        }
        Ok(
            ProcessStats {
                input_frames: frames,
                output_frames: (next - emitted_before) as usize,
                backend: self.backend,
            },
        )
    }

    /// `process` into a fixed output slice: refuses input that is not a whole
    /// number of frames, then an `output` shorter than
    /// `required_output_capacity` samples, and in both cases writes nothing
    /// and changes nothing. Otherwise processes `input` and writes what it
    /// renders at the start of `output`, leaving the rest of `output` as it
    /// was.
    pub fn process_into_slice(&mut self, input: &[i16], output: &mut [i16]) -> (r: Result<
        ProcessStats,
        Error,
    >)
        requires
            old(self).wf(),
            old(self)@.total + input.len() <= stream_frame_limit(),
            (input.len() as int / old(self)@.channels as int + old(self)@.half_taps + 2)
                * ratio_rates(old(self)@.ratio).1 <= u64::MAX,
            spec_capacity_frames(
                input.len() as int / old(self)@.channels as int,
                ratio_rates(old(self)@.ratio).0,
                ratio_rates(old(self)@.ratio).1,
                old(self)@.half_taps,
            ) <= usize::MAX,
        ensures
            final(self).wf(),
            ({
                let channels = old(self)@.channels as int;
                let required = capacity_samples(old(self)@, input.len() as int / channels);
                &&& input.len() as int % channels != 0 ==> {
                    &&& r == Err::<ProcessStats, Error>(
                        (Error::InputNotFrameAligned {
                            samples: input.len(),
                            channels: channels as usize,
                        }),
                    )
                    &&& final(self)@ == old(self)@
                    &&& final(output)@ == old(output)@
                }
                &&& input.len() as int % channels == 0 && old(output)@.len() < required ==> {
                    &&& r == Err::<ProcessStats, Error>(
                        (Error::OutputTooSmall {
                            required: required as usize,
                            available: old(output)@.len() as usize,
                        }),
                    )
                    &&& final(self)@ == old(self)@
                    &&& final(output)@ == old(output)@
                }
                &&& input.len() as int % channels == 0 && old(output)@.len() >= required
                    && old(self)@.finished ==> {
                    &&& r == Ok::<ProcessStats, Error>(
                        (ProcessStats {
                            input_frames: 0,
                            output_frames: 0,
                            backend: old(self)@.backend,
                        }),
                    )
                    &&& final(self)@ == old(self)@
                    &&& final(output)@ == old(output)@
                }
                &&& input.len() as int % channels == 0 && old(output)@.len() >= required
                    && !old(self)@.finished ==> {
                    let written = rendered(old(self)@, input@);
                    &&& r == Ok::<ProcessStats, Error>(process_stats(old(self)@, input@))
                    &&& final(self)@ == processed(old(self)@, input@)
                    &&& written.len() <= old(output)@.len()
                    &&& final(output)@ == written + old(output)@.subrange(
                        written.len() as int,
                        old(output)@.len() as int,
                    )
                }
            }),
    {
        let channels = self.channels.len();
        if input.len() % channels != 0 {
            return Err(frame_alignment_error(input.len(), channels));
        }
        let required = self.required_output_capacity(input.len() / channels);
        if output.len() < required {
            return Err(Error::OutputTooSmall { required, available: output.len() });
        }
        let ghost h = self.half_taps as int;
        let ghost t0 = self.total_input_frames as int;
        let ghost before = output@;
        let mut out: Vec<i16> = Vec::new();
        let stats = match self.process(input, &mut out) {
            Ok(stats) => stats,
            Err(e) => {
                return Err(e);
            },
        };
        proof {
            let frames = input.len() as int / channels as int;
            lemma_capacity_covers_rendered(self.ratio, h, t0, frames);
            if !old(self)@.finished {
                let n = self@.emitted - old(self)@.emitted;
                let cap = spec_capacity_frames(
                    frames,
                    ratio_rates(self.ratio).0,
                    ratio_rates(self.ratio).1,
                    h,
                );
                assert(n * channels <= cap * channels) by (nonlinear_arith)
                    requires
                        0 <= n <= cap,
                        channels >= 0,
                ;
            }
        }
        let mut i: usize = 0;
        while i < out.len()
            invariant
                out.len() <= output.len(),
                output@.len() == before.len(),
                0 <= i <= out.len(),
                forall|j: int| 0 <= j < i ==> output@[j] == out@[j],
                forall|j: int| i <= j < output@.len() ==> output@[j] == before[j],
            decreases out.len() - i,
        {
            output[i] = out[i];
            i = i + 1;
        }
        assert(output@ =~= out@ + before.subrange(out.len() as int, before.len() as int));
        Ok(stats)
    }

    /// Ends the stream: renders every remaining output frame, up to the full
    /// output length, reading silence past the end of the input.
    pub fn finish(&mut self, output: &mut Vec<i16>) -> (stats: ProcessStats)
        requires
            old(self).wf(),
        ensures
            final(self).wf(),
            final(self)@ == (HalfBandStreamView {
                emitted: exact_flush_frames(old(self)@.ratio, old(self)@.total),
                finished: true,
                ..old(self)@
            }),
            final(output)@ == old(output)@ + exact_frames(
                model_views(old(self)@.input),
                old(self)@.ratio,
                old(self)@.emitted,
                final(self)@.emitted,
                old(self)@.taps,
            ),
            final(output)@.len() == old(output)@.len() + (final(self)@.emitted
                - old(self)@.emitted) * old(self)@.channels,
            old(self)@.finished ==> final(self)@ == old(self)@ && final(output)@ == old(output)@
                && stats.output_frames == 0,
            stats == (ProcessStats {
                input_frames: 0,
                output_frames: (final(self)@.emitted - old(self)@.emitted) as usize,
                backend: old(self)@.backend,
            }),
    {
        let ghost h = self.half_taps as int;
        let ghost e0 = self.output_frames_emitted as int;
        let ghost t = self.total_input_frames as int;
        proof {
            lemma_ready_frames(self.ratio, h, t, 0);
        }
        let next = render_exact_ratio_available(
            &self.channels,
            self.ratio,
            &self.taps,
            self.half_taps,
            self.total_input_frames,
            self.output_frames_emitted,
            true,
            output,
        );
        proof {
            let v1 = views(self.channels@);
            let v2 = model_views(self.input@);
            let lo = exact_center(self.ratio, e0) - h;
            let hi = exact_center(self.ratio, next as int) + h;
            assert forall|c: int, f: int| 0 <= c < v1.len() && lo <= f <= hi implies #[trigger] sample_or(
                v1[c],
                f,
                0i16,
            ) == sample_or(v2[c], f, 0i16) by {
                let r = self.channels@[c]@;
                assert(v1[c] == r);
                if 0 <= f && f < t && f >= r.start {
                    assert(r.frames[f - r.start] == self.input@[c][f]);
                }
            }
            if e0 < next {
                lemma_exact_center_monotone(self.ratio, next - 1, next as int);
            }
            lemma_exact_frames_agree(v1, v2, self.ratio, e0, next as int, self.taps, h, lo, hi);
            lemma_exact_center_monotone(self.ratio, e0, next as int);
            lemma_exact_frames_len(v2, self.ratio, e0, next as int, self.taps);
        }
        let emitted_before = self.output_frames_emitted;
        self.output_frames_emitted = next;
        self.finished = true;
        ProcessStats {
            input_frames: 0,
            output_frames: (next - emitted_before) as usize,
            backend: self.backend,
        }
    }

    /// Starts the stream over: no input, no output, not finished, with the
    /// same ratio, taps, backend and channel count.
    pub fn reset(&mut self)
        requires
            old(self).wf(),
        ensures
            final(self).wf(),
            final(self)@ == (HalfBandStreamView {
                input: empty_channels(old(self)@.channels),
                total: 0,
                emitted: 0,
                finished: false,
                ..old(self)@
            }),
    {
        let count = self.channels.len();
        let mut channels: Vec<RingBuffer<i16>> = Vec::new();
        let mut c: usize = 0;
        while c < count
            invariant
                0 <= c <= count,
                channels.len() == c,
                self.ring_capacity >= 1,
                forall|d: int|
                    0 <= d < c ==> {
                        &&& (#[trigger] channels@[d])@.start == 0
                        &&& channels@[d]@.frames.len() == 0
                        &&& channels@[d]@.wf()
                    },
            decreases count - c,
        {
            channels.push(RingBuffer::with_capacity(self.ring_capacity));
            c = c + 1;
        }
        self.channels = channels;
        self.total_input_frames = 0;
        self.output_frames_emitted = 0;
        self.finished = false;
        self.input = Ghost(empty_channels(count as nat));
        proof {
            assert forall|c: int| 0 <= c < self.channels.len() implies {
                let r = (#[trigger] self.channels@[c])@;
                &&& r.wf()
                &&& r.end() == 0
                &&& r.frames == self.input@[c].subrange(r.start, 0)
                &&& (r.start == 0 || r.start <= exact_center(self.ratio, 0) - self.half_taps - 2)
            } by {
                assert(self.channels@[c]@.frames =~= self.input@[c].subrange(0, 0));
            }
            lemma_ready_frames(self.ratio, self.half_taps as int, 0, 0);
        }
    }
}

} // verus!
