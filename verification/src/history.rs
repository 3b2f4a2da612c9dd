use vstd::prelude::*;

use crate::error::{frame_alignment_error, Error};
use crate::ring::{RingBuffer, RingView};

verus! {

/// Channel `channel` of the interleaved samples `input`: sample
/// `f * channels + channel` for each whole frame `f`.
pub open spec fn deinterleaved<T>(input: Seq<T>, channels: nat, channel: int) -> Seq<T>
    recommends
        channels > 0,
{
    Seq::new(input.len() / channels, |f: int| input[f * channels + channel])
}

/// Splitting interleaved input at a frame boundary splits every channel at
/// the same place: feeding `a` and then `b` to `append_input` leaves each
/// channel with the same frames as feeding `a + b` at once.
pub proof fn lemma_deinterleave_concat<T>(a: Seq<T>, b: Seq<T>, channels: nat, channel: int)
    requires
        channels > 0,
        0 <= channel < channels,
        a.len() % channels == 0,
        b.len() % channels == 0,
    ensures
        deinterleaved(a + b, channels, channel) == deinterleaved(a, channels, channel)
            + deinterleaved(b, channels, channel),
{
    let n = channels as int;
    let fa = (a.len() / channels) as int;
    let fb = (b.len() / channels) as int;
    vstd::arithmetic::div_mod::lemma_fundamental_div_mod(a.len() as int, n);
    vstd::arithmetic::div_mod::lemma_fundamental_div_mod(b.len() as int, n);
    assert((a + b).len() == n * (fa + fb)) by (nonlinear_arith)
        requires
            a.len() == n * fa,
            b.len() == n * fb,
    ;
    vstd::arithmetic::div_mod::lemma_div_multiples_vanish(fa + fb, n);
    assert forall|f: int| 0 <= f < fa + fb implies #[trigger] deinterleaved(a + b, channels, channel)[f]
        == (deinterleaved(a, channels, channel) + deinterleaved(b, channels, channel))[f] by {
        if f < fa {
            assert(f * n + channel < a.len()) by (nonlinear_arith)
                requires
                    0 <= f < fa,
                    0 <= channel < n,
                    a.len() == n * fa,
            ;
        } else {
            assert((f - fa) * n + channel == f * n + channel - a.len()) by (nonlinear_arith)
                requires
                    a.len() == n * fa,
            ;
            assert(f * n + channel >= a.len()) by (nonlinear_arith)
                requires
                    f >= fa,
                    0 <= channel,
                    n > 0,
                    a.len() == n * fa,
            ;
            assert(0 <= (f - fa) * n + channel < b.len()) by (nonlinear_arith)
                requires
                    0 <= f - fa < fb,
                    0 <= channel < n,
                    b.len() == n * fb,
            ;
        }
    }
    assert(deinterleaved(a + b, channels, channel) =~= deinterleaved(a, channels, channel)
        + deinterleaved(b, channels, channel));
}

/// The sample of `frame` in a channel history, silence outside its window.
pub open spec fn sample_or<T>(ring: RingView<T>, frame: int, silence: T) -> T {
    match ring.lookup(frame) {
        Some(v) => v,
        None => silence,
    }
}

/// The storage size a channel history is grown to before `incoming` frames
/// arrive: room for the live frames, the new ones, a filter length and a small
/// margin, and never less than four filter lengths.
pub open spec fn history_capacity_target(live: int, incoming: int, taps: int) -> int {
    let need = live + incoming + taps + 8;
    if taps * 4 > need {
        taps * 4
    } else {
        need
    }
}

/// The abstract content of each channel history.
pub open spec fn views<T: Copy + Default>(channels: Seq<RingBuffer<T>>) -> Seq<RingView<T>> {
    Seq::new(channels.len(), |c: int| channels[c]@)
}

/// Every channel history is well formed.
pub open spec fn all_wf<T: Copy + Default>(channels: Seq<RingBuffer<T>>) -> bool {
    forall|c: int| 0 <= c < channels.len() ==> (#[trigger] channels[c])@.wf()
}

/// Grows each channel history so that `incoming_frames` more frames fit next
/// to the ones it holds, plus one filter length of margin. No held frame is
/// lost or moved.
pub fn ensure_history_capacity<T: Copy + Default>(
    channels: &mut Vec<RingBuffer<T>>,
    incoming_frames: usize,
    taps: usize,
)
    requires
        taps * 4 <= usize::MAX / 2 + 1,
        forall|c: int|
            0 <= c < old(channels).len() ==> (#[trigger] old(channels)[c])@.frames.len()
                + incoming_frames + taps + 8 <= usize::MAX / 2 + 1,
    ensures
        final(channels).len() == old(channels).len(),
        all_wf(final(channels)@),
        forall|c: int|
            0 <= c < old(channels).len() ==> {
                &&& (#[trigger] final(channels)[c])@.start == old(channels)[c]@.start
                &&& final(channels)[c]@.frames == old(channels)[c]@.frames
                &&& final(channels)[c]@.capacity >= history_capacity_target(
                    old(channels)[c]@.frames.len() as int,
                    incoming_frames as int,
                    taps as int,
                )
                &&& history_capacity_target(
                    old(channels)[c]@.frames.len() as int,
                    incoming_frames as int,
                    taps as int,
                ) <= old(channels)[c]@.capacity ==> final(channels)[c]@.capacity == old(
                    channels,
                )[c]@.capacity
            },
{
    let ghost old_channels = channels@;
    let mut i: usize = 0;
    while i < channels.len()
        invariant
            channels.len() == old_channels.len(),
            0 <= i <= channels.len(),
            taps * 4 <= usize::MAX / 2 + 1,
            forall|c: int|
                0 <= c < old_channels.len() ==> (#[trigger] old_channels[c])@.frames.len()
                    + incoming_frames + taps + 8 <= usize::MAX / 2 + 1,
            forall|c: int| i <= c < channels.len() ==> #[trigger] channels@[c] == old_channels[c],
            forall|c: int|
                0 <= c < i ==> {
                    &&& (#[trigger] channels@[c])@.wf()
                    &&& channels@[c]@.start == old_channels[c]@.start
                    &&& channels@[c]@.frames == old_channels[c]@.frames
                    &&& channels@[c]@.capacity >= history_capacity_target(
                        old_channels[c]@.frames.len() as int,
                        incoming_frames as int,
                        taps as int,
                    )
                    &&& history_capacity_target(
                        old_channels[c]@.frames.len() as int,
                        incoming_frames as int,
                        taps as int,
                    ) <= old_channels[c]@.capacity ==> channels@[c]@.capacity
                        == old_channels[c]@.capacity
                },
        decreases channels.len() - i,
    {
        let live = (channels[i].end_frame() - channels[i].start_frame()) as usize;
        let need = live + incoming_frames + taps + 8;
        let target = if taps * 4 > need { taps * 4 } else { need };
        channels[i].ensure_capacity(target);
        i = i + 1;
    }
    assert(all_wf(channels@));
}

/// Appends interleaved `input` to the per-channel histories.
///
/// The input must hold whole frames of `channels.len()` samples; otherwise
/// nothing changes and the frame-alignment error comes back. On success each
/// channel first grows (see `ensure_history_capacity`) and then holds its old
/// frames followed by its own samples of every input frame, and the number of
/// frames appended is returned.
pub fn append_input<T: Copy + Default>(
    channels: &mut Vec<RingBuffer<T>>,
    input: &[T],
    taps: usize,
) -> (r: Result<usize, Error>)
    requires
        old(channels).len() > 0,
        taps * 4 <= usize::MAX / 2 + 1,
        forall|c: int|
            0 <= c < old(channels).len() ==> {
                &&& (#[trigger] old(channels)[c])@.frames.len() + input.len() + taps + 8
                    <= usize::MAX / 2 + 1
                &&& old(channels)[c]@.end() + input.len() < i64::MAX
            },
    ensures
        input.len() % old(channels).len() != 0 ==> {
            &&& r == Err::<usize, Error>(
                (Error::InputNotFrameAligned { samples: input.len(), channels: old(channels).len() }),
            )
            &&& final(channels)@ == old(channels)@
        },
        input.len() % old(channels).len() == 0 ==> {
            &&& r == Ok::<usize, Error>(input.len() / old(channels).len())
            &&& final(channels).len() == old(channels).len()
            &&& all_wf(final(channels)@)
            &&& forall|c: int|
                0 <= c < old(channels).len() ==> {
                    &&& (#[trigger] final(channels)[c])@.start == old(channels)[c]@.start
                    &&& final(channels)[c]@.frames == old(channels)[c]@.frames + deinterleaved(
                        input@,
                        old(channels).len() as nat,
                        c,
                    )
                    &&& final(channels)[c]@.capacity >= history_capacity_target(
                        old(channels)[c]@.frames.len() as int,
                        (input.len() / old(channels).len()) as int,
                        taps as int,
                    )
                }
        },
{
    let count = channels.len();
    if input.len() % count != 0 {
        return Err(frame_alignment_error(input.len(), count));
    }
    let frames = input.len() / count;
    proof {
        assert forall|c: int| 0 <= c < channels.len() implies (#[trigger] channels@[c])@.frames.len()
            + frames + taps + 8 <= usize::MAX / 2 + 1 by {
            assert(channels@[c]@.frames.len() + input.len() + taps + 8 <= usize::MAX / 2 + 1);
        }
    }
    ensure_history_capacity(channels, frames, taps);
    let ghost grown = channels@;
    proof {
        assert forall|c: int| 0 <= c < count implies grown[c]@.frames.len() + frames
            <= (#[trigger] grown[c])@.capacity && grown[c]@.end() + input.len() < i64::MAX by {
            assert(old(channels)@[c]@.frames.len() + input.len() < i64::MAX);
        }
    }
    let mut f: usize = 0;
    while f < frames
        invariant
            count == channels.len(),
            count == grown.len(),
            count > 0,
            frames == input.len() / count,
            input.len() % count == 0,
            0 <= f <= frames,
            all_wf(channels@),
            forall|c: int|
                0 <= c < count ==> grown[c]@.frames.len() + frames <= (#[trigger] grown[c])@.capacity
                    && grown[c]@.end() + input.len() < i64::MAX,
            forall|c: int|
                0 <= c < count ==> (#[trigger] channels@[c])@.start == grown[c]@.start
                    && channels@[c]@.capacity == grown[c]@.capacity,
            forall|c: int|
                0 <= c < count ==> (#[trigger] channels@[c])@.frames == grown[c]@.frames
                    + Seq::new(f as nat, |g: int| input@[g * count + c]),
        decreases frames - f,
    {
        let mut c: usize = 0;
        while c < count
            invariant
                count == channels.len(),
                count == grown.len(),
                count > 0,
                frames == input.len() / count,
                input.len() % count == 0,
                0 <= f < frames,
                0 <= c <= count,
                all_wf(channels@),
                forall|d: int|
                    0 <= d < count ==> grown[d]@.frames.len() + frames <= (#[trigger] grown[
                        d])@.capacity && grown[d]@.end() + input.len() < i64::MAX,
                forall|d: int|
                    0 <= d < count ==> (#[trigger] channels@[d])@.start == grown[d]@.start
                        && channels@[d]@.capacity == grown[d]@.capacity,
                forall|d: int|
                    0 <= d < c ==> (#[trigger] channels@[d])@.frames == grown[d]@.frames
                        + Seq::new((f + 1) as nat, |g: int| input@[g * count + d]),
                forall|d: int|
                    c <= d < count ==> (#[trigger] channels@[d])@.frames == grown[d]@.frames
                        + Seq::new(f as nat, |g: int| input@[g * count + d]),
            decreases count - c,
        {
            proof {
                vstd::arithmetic::mul::lemma_mul_is_distributive_add_other_way(
                    count as int,
                    f as int,
                    1,
                );
                vstd::arithmetic::mul::lemma_mul_inequality(f as int + 1, frames as int, count as int);
                vstd::arithmetic::div_mod::lemma_fundamental_div_mod(input.len() as int, count as int);
                let cc = c as int;
                assert(grown[cc]@.frames.len() + frames <= grown[cc]@.capacity);
                assert(channels@[cc]@.frames.len() == grown[cc]@.frames.len() + f);
                assert(channels@[cc]@.frames.len() < channels@[cc]@.capacity);
                assert(channels@[cc]@.end() < i64::MAX);
            }
            let sample = input[f * count + c];
            let ghost before = channels@;
            channels[c].push(sample);
            proof {
                let cc = c as int;
                assert(channels@[cc]@.frames =~= grown[cc]@.frames + Seq::new(
                    (f + 1) as nat,
                    |g: int| input@[g * count + cc],
                ));
                assert forall|d: int| 0 <= d < count && d != cc implies #[trigger] channels@[d]
                    == before[d] by {
                }
                assert forall|d: int| 0 <= d < count implies (#[trigger] channels@[d])@.wf() by {
                    if d != cc {
                        assert(channels@[d] == before[d]);
                    }
                }
            }
            c = c + 1;
        }
        f = f + 1;
    }
    proof {
        assert forall|c: int| 0 <= c < count implies (#[trigger] channels@[c])@.frames
            == grown[c]@.frames + deinterleaved(input@, count as nat, c) by {
            assert(Seq::new(frames as nat, |g: int| input@[g * count + c]) =~= deinterleaved(
                input@,
                count as nat,
                c,
            ));
        }
    }
    Ok(frames)
}

/// The sample of `absolute_frame` in channel `channel`, or `silence` when the
/// history does not hold that frame.
pub fn sample_at<T: Copy + Default>(
    channels: &Vec<RingBuffer<T>>,
    channel: usize,
    absolute_frame: i64,
    silence: T,
) -> (s: T)
    requires
        channel < channels.len(),
    ensures
        s == sample_or(channels[channel as int]@, absolute_frame as int, silence),
{
    match channels[channel].get(absolute_frame) {
        Some(v) => v,
        None => silence,
    }
}

/// Forgets, in every channel, the frames before `keep_from`.
pub fn discard_before<T: Copy + Default>(channels: &mut Vec<RingBuffer<T>>, keep_from: i64)
    ensures
        final(channels).len() == old(channels).len(),
        all_wf(final(channels)@),
        forall|c: int|
            0 <= c < old(channels).len() ==> (#[trigger] final(channels)[c])@ == old(
                channels,
            )[c]@.discarded_before(keep_from as int),
{
    let ghost old_channels = channels@;
    let mut i: usize = 0;
    while i < channels.len()
        invariant
            channels.len() == old_channels.len(),
            0 <= i <= channels.len(),
            forall|c: int| i <= c < channels.len() ==> #[trigger] channels@[c] == old_channels[c],
            forall|c: int|
                0 <= c < i ==> (#[trigger] channels@[c])@ == old_channels[c]@.discarded_before(
                    keep_from as int,
                ) && channels@[c]@.wf(),
        decreases channels.len() - i,
    {
        channels[i].discard_before(keep_from);
        i = i + 1;
    }
}

/// Copies the `taps` samples of channel `channel` starting at absolute frame
/// `first_frame` (silence outside the history) into `scratch[..taps]`.
pub fn gather_window<T: Copy + Default>(
    channels: &Vec<RingBuffer<T>>,
    channel: usize,
    first_frame: i64,
    taps: usize,
    silence: T,
    scratch: &mut Vec<T>,
)
    requires
        channel < channels.len(),
        taps <= old(scratch).len(),
        taps <= i64::MAX,
        first_frame + taps <= i64::MAX,
    ensures
        final(scratch).len() == old(scratch).len(),
        forall|t: int|
            0 <= t < taps ==> #[trigger] final(scratch)@[t] == sample_or(
                channels[channel as int]@,
                first_frame + t,
                silence,
            ),
        forall|t: int|
            taps <= t < old(scratch).len() ==> #[trigger] final(scratch)@[t] == old(scratch)@[t],
{
    let ghost old_scratch = scratch@;
    let mut tap: usize = 0;
    while tap < taps
        invariant
            channel < channels.len(),
            taps <= scratch.len(),
            taps <= i64::MAX,
            scratch.len() == old_scratch.len(),
            first_frame + taps <= i64::MAX,
            0 <= tap <= taps,
            forall|t: int|
                0 <= t < tap ==> #[trigger] scratch@[t] == sample_or(
                    channels[channel as int]@,
                    first_frame + t,
                    silence,
                ),
            forall|t: int| tap <= t < scratch.len() ==> #[trigger] scratch@[t] == old_scratch[t],
        decreases taps - tap,
    {
        scratch[tap] = sample_at(channels, channel, first_frame + tap as i64, silence);
        tap = tap + 1;
    }
}

} // verus!
