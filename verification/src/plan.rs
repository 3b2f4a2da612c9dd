use vstd::prelude::*;

use crate::backend::{Backend, CpuFeatures, SelectedBackend};
use crate::config::{Quality, ResamplerConfig};
use crate::error::Error;
use crate::ring::RingBuffer;

verus! {

/// What one `process` or `finish` call did: frames consumed, frames produced
/// and the backend that produced them.
#[derive(Debug, Clone, Copy, PartialEq)]
pub struct ProcessStats {
    pub input_frames: usize,
    pub output_frames: usize,
    pub backend: SelectedBackend,
}

/// The exact sample-rate ratios that get a dedicated compact-filter path:
/// the half-band 2x up- and downsamplers and the third-band 3x downsampler.
#[derive(Debug, Clone, Copy, PartialEq, Eq)]
pub enum SpecialRatio {
    General,
    Up2,
    Down2,
    Down3,
}

pub open spec fn spec_special_ratio(input_rate: u32, output_rate: u32) -> SpecialRatio {
    if input_rate == 8000 && output_rate == 16000 {
        SpecialRatio::Up2
    } else if input_rate == 16000 && output_rate == 8000 {
        SpecialRatio::Down2
    } else if input_rate == 24000 && output_rate == 8000 {
        SpecialRatio::Down3
    } else {
        SpecialRatio::General
    }
}

/// `8000 -> 16000` is the 2x upsampler, `16000 -> 8000` the 2x downsampler,
/// `24000 -> 8000` the 3x downsampler, every other pair of rates the general
/// polyphase path.
pub fn special_ratio(input_rate: u32, output_rate: u32) -> (r: SpecialRatio)
    ensures
        r == spec_special_ratio(input_rate, output_rate),
{
    if input_rate == 8000 && output_rate == 16000 {
        SpecialRatio::Up2
    } else if input_rate == 16000 && output_rate == 8000 {
        SpecialRatio::Down2
    } else if input_rate == 24000 && output_rate == 8000 {
        SpecialRatio::Down3
    } else {
        SpecialRatio::General
    }
}

/// The rates that use a compact symmetric filter of odd length: the exact
/// `8000 <-> 16000` half-band and the `24000 -> 8000` third-band filter.
pub open spec fn uses_compact_filter(input_rate: u32, output_rate: u32) -> bool {
    (input_rate == 8000 && output_rate == 16000) || (input_rate == 16000 && output_rate == 8000)
        || (input_rate == 24000 && output_rate == 8000)
}

pub open spec fn spec_filter_taps(input_rate: u32, output_rate: u32, quality: Quality) -> nat {
    if uses_compact_filter(input_rate, output_rate) {
        quality.spec_taps() / 2 * 2 + 1
    } else {
        quality.spec_taps()
    }
}

/// Filter length for a rate pair and quality: the quality's tap count, or,
/// for the compact filters, the odd length `2 * (taps / 2) + 1` around a
/// centre tap.
pub fn filter_taps(input_rate: u32, output_rate: u32, quality: Quality) -> (n: usize)
    ensures
        n == spec_filter_taps(input_rate, output_rate, quality),
{
    let taps = quality.taps();
    if (input_rate == 8000 && output_rate == 16000) || (input_rate == 16000 && output_rate == 8000)
        || (input_rate == 24000 && output_rate == 8000) {
        taps / 2 * 2 + 1
    } else {
        taps
    }
}

/// `a + b`, or `usize::MAX` when that does not fit.
pub open spec fn saturating_add_usize(a: int, b: int) -> int {
    if a + b > usize::MAX {
        usize::MAX as int
    } else {
        a + b
    }
}

/// `a * b`, or `usize::MAX` when that does not fit.
pub open spec fn saturating_mul_usize(a: int, b: int) -> int {
    if a * b > usize::MAX {
        usize::MAX as int
    } else {
        a * b
    }
}

/// Initial ring capacity: four filter lengths, or more when the caller
/// promises chunks of up to `max_chunk` frames.
pub open spec fn spec_ring_capacity(taps: nat, max_chunk: Option<usize>) -> int {
    let chunk = match max_chunk {
        Some(n) => n as int,
        None => 0,
    };
    let hinted = saturating_add_usize(saturating_add_usize(chunk, taps as int), 8);
    if taps * 4 > hinted {
        (taps * 4) as int
    } else {
        hinted
    }
}

/// The integer part of a resampler's initial state.
#[derive(Debug)]
pub struct StreamSetup<T: Copy + Default> {
    pub backend: SelectedBackend,
    pub taps: usize,
    pub channels: Vec<RingBuffer<T>>,
    pub special_ratio: SpecialRatio,
    pub uses_fast_iir: bool,
}

/// Checks a configuration and lays out the state a resampler starts from:
/// the backend selected on `cpu`, the filter length, one empty history per
/// channel (each sized by `spec_ring_capacity`), the special ratio, and
/// whether the exact-ratio IIR path applies (`Quality::Fast` at 8k <-> 16k).
///
/// Fails as `validate` does, then as `Backend::select` does.
pub fn init_stream<T: Copy + Default>(config: ResamplerConfig, cpu: CpuFeatures) -> (r: Result<
    StreamSetup<T>,
    Error,
>)
    ensures
        config.spec_validation_error() is Some ==> (r matches Err(e) && Some(e)
            == config.spec_validation_error()),
        config.spec_validation_error() is None && config.backend.spec_select(cpu) is None ==> (
        r matches Err(Error::UnsupportedBackend(name)) && name@
            == config.backend.spec_unavailable_name()),
        r is Ok <==> (config.spec_validation_error() is None && config.backend.spec_select(
            cpu,
        ) is Some),
        r matches Ok(s) ==> {
            &&& Some(s.backend) == config.backend.spec_select(cpu)
            &&& s.taps == spec_filter_taps(config.input_rate, config.output_rate, config.quality)
            &&& s.special_ratio == spec_special_ratio(config.input_rate, config.output_rate)
            &&& s.uses_fast_iir == (config.quality == Quality::Fast && (s.special_ratio
                == SpecialRatio::Up2 || s.special_ratio == SpecialRatio::Down2))
            &&& s.channels.len() == config.channels
            &&& forall|c: int|
                0 <= c < s.channels.len() ==> {
                    &&& (#[trigger] s.channels[c])@.start == 0
                    &&& s.channels[c]@.frames.len() == 0
                    &&& s.channels[c]@.capacity == spec_ring_capacity(
                        s.taps as nat,
                        config.max_input_frames_per_chunk,
                    )
                    &&& s.channels[c]@.wf()
                }
        },
{
    match config.validate() {
        Ok(()) => {},
        Err(e) => return Err(e),
    }
    let backend = match config.backend.select(cpu) {
        Ok(b) => b,
        Err(e) => return Err(e),
    };
    let taps = filter_taps(config.input_rate, config.output_rate, config.quality);
    let chunk = match config.max_input_frames_per_chunk {
        Some(n) => n,
        None => 0,
    };
    let hinted = chunk.saturating_add(taps).saturating_add(8);
    let ring_capacity = if taps * 4 > hinted { taps * 4 } else { hinted };
    let mut channels: Vec<RingBuffer<T>> = Vec::new();
    let mut c: usize = 0;
    while c < config.channels
        invariant
            0 <= c <= config.channels,
            ring_capacity >= 1,
            ring_capacity == spec_ring_capacity(taps as nat, config.max_input_frames_per_chunk),
            channels.len() == c,
            forall|d: int|
                0 <= d < c ==> {
                    &&& (#[trigger] channels@[d])@.start == 0
                    &&& channels@[d]@.frames.len() == 0
                    &&& channels@[d]@.capacity == ring_capacity
                    &&& channels@[d]@.wf()
                },
        decreases config.channels - c,
    {
        channels.push(RingBuffer::with_capacity(ring_capacity));
        c = c + 1;
    }
    let ratio = special_ratio(config.input_rate, config.output_rate);
    let uses_fast_iir = match (config.quality, ratio) {
        (Quality::Fast, SpecialRatio::Up2) => true,
        (Quality::Fast, SpecialRatio::Down2) => true,
        _ => false,
    };
    Ok(StreamSetup { backend, taps, channels, special_ratio: ratio, uses_fast_iir })
}

/// `ceil(a / b)` for `a >= 0` and `b > 0`.
pub open spec fn ceil_div(a: int, b: int) -> int {
    (a + b - 1) / b
}

/// Frames a stream of `input_frames` frames yields after `finish`:
/// `ceil(max(input_frames, 0) * output_rate / input_rate)`.
pub open spec fn spec_expected_output_frames(input_frames: int, input_rate: int, output_rate: int) -> int {
    let frames = if input_frames < 0 {
        0
    } else {
        input_frames
    };
    ceil_div(frames * output_rate, input_rate)
}

/// `ceil(max(input_frames, 0) * output_rate / input_rate)`, computed in `u64`
/// and returned as `i64`.
pub fn expected_output_frames(input_frames: i64, input_rate: u32, output_rate: u32) -> (n: i64)
    requires
        input_rate > 0,
        (if input_frames < 0 {
            0
        } else {
            input_frames as int
        }) * output_rate <= u64::MAX,
    ensures
        n == spec_expected_output_frames(input_frames as int, input_rate as int, output_rate as int)
            as i64,
        spec_expected_output_frames(input_frames as int, input_rate as int, output_rate as int)
            <= i64::MAX ==> n == spec_expected_output_frames(
            input_frames as int,
            input_rate as int,
            output_rate as int,
        ),
{
    let frames: u64 = if input_frames < 0 {
        0
    } else {
        input_frames as u64
    };
    let input_rate = input_rate as u64;
    let output_rate = output_rate as u64;
    let product = frames * output_rate;
    let quotient = product / input_rate;
    proof {
        let q = quotient as int;
        let d = input_rate as int;
        let r = (product % input_rate) as int;
        vstd::arithmetic::div_mod::lemma_fundamental_div_mod(product as int, d);
        assert(product == d * q + r);
        if r != 0 {
            assert(q < u64::MAX) by (nonlinear_arith)
                requires
                    product == d * q + r,
                    r > 0,
                    d >= 1,
                    q >= 0,
                    product <= u64::MAX,
            ;
            assert(product + d - 1 == d * (q + 1) + (r - 1)) by (nonlinear_arith)
                requires
                    product == d * q + r,
            ;
            vstd::arithmetic::div_mod::lemma_fundamental_div_mod_converse(
                product + d - 1,
                d,
                q + 1,
                r - 1,
            );
        } else {
            vstd::arithmetic::div_mod::lemma_fundamental_div_mod_converse(
                product + d - 1,
                d,
                q,
                d - 1,
            );
        }
    }
    let ceil = if product % input_rate != 0 {
        quotient + 1
    } else {
        quotient
    };
    #[verifier::truncate]
    (ceil as i64)
}

/// The frame count `required_output_capacity` sizes for: the expected output
/// of `input_frames` frames plus half a filter and two frames of slack.
pub open spec fn spec_capacity_frames(
    input_frames: int,
    input_rate: int,
    output_rate: int,
    half_taps: int,
) -> int {
    spec_expected_output_frames(input_frames + half_taps + 2, input_rate, output_rate)
}

/// The capacity `required_output_capacity` sizes for covers the whole output
/// that `input_frames` input frames yield after `finish`.
pub proof fn lemma_capacity_covers_expected_output(
    input_frames: int,
    input_rate: int,
    output_rate: int,
    half_taps: int,
)
    requires
        input_frames >= 0,
        half_taps >= 0,
        input_rate > 0,
        output_rate >= 0,
    ensures
        spec_capacity_frames(input_frames, input_rate, output_rate, half_taps)
            >= spec_expected_output_frames(input_frames, input_rate, output_rate),
{
    let more = input_frames + half_taps + 2;
    assert(input_frames * output_rate <= more * output_rate) by (nonlinear_arith)
        requires
            input_frames <= more,
            output_rate >= 0,
    ;
    vstd::arithmetic::div_mod::lemma_div_is_ordered(
        input_frames * output_rate + input_rate - 1,
        more * output_rate + input_rate - 1,
        input_rate,
    );
}

/// The sample count `required_output_capacity` returns: the
/// `spec_capacity_frames` frames (as an `i64`, negative read as zero) of
/// `channels` samples each, saturating at `usize::MAX`.
pub open spec fn spec_required_capacity(
    input_frames: int,
    input_rate: int,
    output_rate: int,
    channels: int,
    half_taps: int,
) -> int {
    let frames = spec_capacity_frames(input_frames, input_rate, output_rate, half_taps) as i64;
    let clamped: i64 = if frames < 0 {
        0
    } else {
        frames
    };
    saturating_mul_usize(clamped as usize as int, channels)
}

/// The checks made before writing into a fixed output slice: the input of
/// `input_len` samples must hold whole frames of `channels` samples, then
/// the `available` samples of the slice must reach the capacity that
/// `required_output_capacity` gives for those frames, which is returned.
pub fn check_output_slice(
    input_len: usize,
    input_rate: u32,
    output_rate: u32,
    channels: usize,
    half_taps: usize,
    available: usize,
) -> (r: Result<usize, Error>)
    requires
        channels > 0,
        input_rate > 0,
        input_len % channels == 0 ==> input_len / channels + half_taps + 2 <= i64::MAX,
        input_len % channels == 0 ==> (input_len / channels + half_taps + 2) * output_rate
            <= u64::MAX,
    ensures
        input_len % channels != 0 ==> r == Err::<usize, Error>(
            (Error::InputNotFrameAligned { samples: input_len, channels }),
        ),
        input_len % channels == 0 ==> {
            let required = spec_required_capacity(
                (input_len / channels) as int,
                input_rate as int,
                output_rate as int,
                channels as int,
                half_taps as int,
            );
            &&& available < required ==> r == Err::<usize, Error>(
                (Error::OutputTooSmall { required: required as usize, available }),
            )
            &&& available >= required ==> r == Ok::<usize, Error>(required as usize)
        },
{
    if input_len % channels != 0 {
        return Err(Error::InputNotFrameAligned { samples: input_len, channels });
    }
    let required = required_output_capacity(
        input_len / channels,
        input_rate,
        output_rate,
        channels,
        half_taps,
    );
    if available < required {
        return Err(Error::OutputTooSmall { required, available });
    }
    Ok(required)
}

/// A conservative output buffer size, in samples, for processing
/// `input_frames` more input frames: `spec_capacity_frames` frames of
/// `channels` samples, saturating at `usize::MAX`.
pub fn required_output_capacity(
    input_frames: usize,
    input_rate: u32,
    output_rate: u32,
    channels: usize,
    half_taps: usize,
) -> (n: usize)
    requires
        input_rate > 0,
        input_frames + half_taps + 2 <= i64::MAX,
        (input_frames + half_taps + 2) * output_rate <= u64::MAX,
    ensures
        ({
            let frames = spec_capacity_frames(
                input_frames as int,
                input_rate as int,
                output_rate as int,
                half_taps as int,
            );
            frames <= i64::MAX && frames <= usize::MAX ==> n == saturating_mul_usize(
                frames,
                channels as int,
            )
        }),
        ({
            let frames = spec_capacity_frames(
                input_frames as int,
                input_rate as int,
                output_rate as int,
                half_taps as int,
            ) as i64;
            let clamped: i64 = if frames < 0 { 0 } else { frames };
            n == saturating_mul_usize(clamped as usize as int, channels as int)
        }),
{
    let total = input_frames as i64 + half_taps as i64 + 2;
    let expected = expected_output_frames(total, input_rate, output_rate);
    let clamped: i64 = if expected < 0 { 0 } else { expected };
    let frames = clamped as usize;
    match frames.checked_mul(channels) {
        Some(n) => n,
        None => usize::MAX,
    }
}

} // verus!
