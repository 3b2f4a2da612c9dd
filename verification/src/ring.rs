use vstd::arithmetic::div_mod::{
    lemma_mod_add_multiples_vanish, lemma_mod_equivalence, lemma_small_mod,
};
use vstd::arithmetic::power2::{lemma_pow2_unfold, pow2};
use vstd::prelude::*;

verus! {

/// `n` is a power of two.
pub open spec fn is_power_of_two(n: int) -> bool {
    exists|k: nat| pow2(k) == n
}

/// `p` is the smallest power of two that is at least `n`.
pub open spec fn is_next_power_of_two(p: int, n: int) -> bool {
    &&& is_power_of_two(p)
    &&& p >= n
    &&& (p == 1 || p / 2 < n)
}

/// The abstract content of a ring buffer: the absolute frame number of its
/// oldest sample, the samples it holds in order, and how many it can hold.
pub ghost struct RingView<T> {
    pub start: int,
    pub frames: Seq<T>,
    pub capacity: nat,
}

impl<T> RingView<T> {
    pub open spec fn wf(self) -> bool {
        &&& self.start >= 0
        &&& self.capacity >= 1
        &&& self.frames.len() <= self.capacity
        &&& self.start + self.frames.len() <= i64::MAX
    }

    /// One past the absolute frame number of the newest sample.
    pub open spec fn end(self) -> int {
        self.start + self.frames.len()
    }

    /// The sample of absolute frame `frame`, if the buffer still holds it.
    pub open spec fn lookup(self, frame: int) -> Option<T> {
        if self.start <= frame < self.end() {
            Some(self.frames[frame - self.start])
        } else {
            None
        }
    }

    /// Appends `value` as the next frame; a full buffer drops its oldest frame.
    pub open spec fn pushed(self, value: T) -> Self {
        if self.frames.len() < self.capacity {
            RingView { start: self.start, frames: self.frames.push(value), capacity: self.capacity }
        } else {
            RingView {
                start: self.start + 1,
                frames: self.frames.drop_first().push(value),
                capacity: self.capacity,
            }
        }
    }

    /// Forgets every frame before `frame`, clamped to the held window.
    pub open spec fn discarded_before(self, frame: int) -> Self {
        let keep = if frame < self.start {
            self.start
        } else if frame > self.end() {
            self.end()
        } else {
            frame
        };
        RingView {
            start: keep,
            frames: self.frames.subrange(keep - self.start, self.frames.len() as int),
            capacity: self.capacity,
        }
    }
}

/// Reading a frame back after pushing it gives the pushed value, and every
/// other frame that is still held after the push reads as before; frames
/// that fall out of a full buffer read as `None`.
pub proof fn lemma_lookup_after_push<T>(ring: RingView<T>, value: T)
    requires
        ring.wf(),
        ring.end() < i64::MAX,
    ensures
        ring.pushed(value).wf(),
        ring.pushed(value).end() == ring.end() + 1,
        ring.pushed(value).lookup(ring.end()) == Some(value),
        forall|f: int|
            f != ring.end() ==> #[trigger] ring.pushed(value).lookup(f) == (if f >= ring.pushed(
                value,
            ).start {
                ring.lookup(f)
            } else {
                None
            }),
{
}

/// Discarding before `frame` keeps every later frame readable unchanged and
/// makes every earlier frame unreadable.
pub proof fn lemma_lookup_after_discard<T>(ring: RingView<T>, frame: int)
    requires
        ring.wf(),
    ensures
        ring.discarded_before(frame).wf(),
        ring.discarded_before(frame).end() == ring.end(),
        forall|f: int|
            #[trigger] ring.discarded_before(frame).lookup(f) == (if f >= frame {
                ring.lookup(f)
            } else {
                None
            }),
{
}

/// `ring` keeps the stream `vals`: it has seen exactly the frames of
/// `vals`, and holds the newest of them, from frame `ring.start` on.
pub open spec fn keeps<T>(ring: RingView<T>, vals: Seq<T>) -> bool {
    &&& ring.end() == vals.len()
    &&& ring.frames == vals.subrange(ring.start, vals.len() as int)
}

/// Over any sequence of pushes and discards from an empty buffer, the
/// buffer keeps the stream of pushed values: every held frame reads as the
/// value pushed for it, every other frame reads as `None`; a push extends
/// the stream by its value and a discard leaves it as it is. (Growing the
/// storage keeps the view, so it keeps the stream too.)
pub proof fn lemma_keeps_stream<T>(ring: RingView<T>, vals: Seq<T>, value: T, frame: int)
    requires
        ring.wf(),
        keeps(ring, vals),
    ensures
        forall|f: int|
            #[trigger] ring.lookup(f) == (if ring.start <= f < vals.len() {
                Some(vals[f])
            } else {
                None
            }),
        ring.end() < i64::MAX ==> keeps(ring.pushed(value), vals.push(value)),
        keeps(ring.discarded_before(frame), vals),
{
    if ring.end() < i64::MAX {
        let p = ring.pushed(value);
        assert(p.frames =~= vals.push(value).subrange(p.start, vals.len() as int + 1));
    }
    let d = ring.discarded_before(frame);
    assert(d.frames =~= vals.subrange(d.start, vals.len() as int));
}

/// An empty buffer starting at frame 0 keeps the empty stream.
pub proof fn lemma_empty_keeps_nothing<T>(ring: RingView<T>)
    requires
        ring.start == 0,
        ring.frames.len() == 0,
    ensures
        keeps(ring, Seq::<T>::empty()),
{
    assert(ring.frames =~= Seq::<T>::empty().subrange(0, 0));
}

/// A fixed-capacity history of samples addressed by absolute frame number.
///
/// Pushing into a full buffer overwrites the oldest frame; `ensure_capacity`
/// grows the storage without losing or moving any held frame.
#[derive(Debug)]
pub struct RingBuffer<T: Copy + Default> {
    data: Vec<T>,
    start_frame: i64,
    len: usize,
}

proof fn lemma_mod_distinct(s: int, i: int, j: int, m: int)
    requires
        m > 0,
        0 <= i < j < m,
    ensures
        (s + i) % m != (s + j) % m,
{
    lemma_small_mod((j - i) as nat, m as nat);
    lemma_mod_equivalence(s + j, s + i, m);
}

proof fn lemma_mod_wraps(s: int, m: int)
    requires
        m > 0,
    ensures
        (s + m) % m == s % m,
{
    lemma_mod_add_multiples_vanish(s, m);
}

impl<T: Copy + Default> View for RingBuffer<T> {
    type V = RingView<T>;

    closed spec fn view(&self) -> RingView<T> {
        RingView {
            start: self.start_frame as int,
            frames: Seq::new(
                self.len as nat,
                |i: int| self.data@[(self.start_frame + i) % (self.data.len() as int)],
            ),
            capacity: self.data.len() as nat,
        }
    }
}

impl<T: Copy + Default> Clone for RingBuffer<T> {
    fn clone(&self) -> (r: Self)
        ensures
            r@ == self@,
    {
        proof { use_type_invariant(self); }
        let mut data: Vec<T> = Vec::with_capacity(self.data.len());
        let mut i: usize = 0;
        while i < self.data.len()
            invariant
                0 <= i <= self.data.len(),
                data@ == self.data@.subrange(0, i as int),
            decreases self.data.len() - i,
        {
            data.push(self.data[i]);
            i = i + 1;
        }
        assert(data@ =~= self.data@);
        RingBuffer { data, start_frame: self.start_frame, len: self.len }
    }
}

impl<T: Copy + Default> RingBuffer<T> {
    #[verifier::type_invariant]
    spec fn inv(self) -> bool {
        &&& self.data.len() >= 1
        &&& self.len <= self.data.len()
        &&& self.start_frame >= 0
        &&& self.start_frame + self.len <= i64::MAX
    }

    /// An empty buffer starting at frame 0 that holds at least one frame.
    pub fn with_capacity(capacity: usize) -> (r: Self)
        ensures
            r@.start == 0,
            r@.frames.len() == 0,
            r@.capacity == (if capacity == 0 { 1 } else { capacity as nat }),
            r@.wf(),
    {
        let size = if capacity == 0 { 1 } else { capacity };
        let r = RingBuffer { data: vec![T::default(); size], start_frame: 0, len: 0 };
        assert(r@.frames =~= Seq::<T>::empty());
        r
    }

    pub fn start_frame(&self) -> (f: i64)
        ensures
            f == self@.start,
            self@.wf(),
    {
        proof { use_type_invariant(self); }
        self.start_frame
    }

    pub fn end_frame(&self) -> (f: i64)
        ensures
            f == self@.end(),
            self@.wf(),
    {
        proof { use_type_invariant(self); }
        self.start_frame + self.len as i64
    }

    pub fn capacity(&self) -> (c: usize)
        ensures
            c == self@.capacity,
            self@.wf(),
    {
        proof { use_type_invariant(self); }
        self.data.len()
    }

    /// Storage slot of the frame `local` places after the oldest one.
    fn physical_index(&self, local: usize) -> (i: usize)
        requires
            local < self.data.len(),
            self.start_frame + local <= i64::MAX,
        ensures
            i == (self.start_frame + local) % (self.data.len() as int),
            i < self.data.len(),
    {
        proof { use_type_invariant(self); }
        let sum: u64 = self.start_frame as u64 + local as u64;
        (sum % (self.data.len() as u64)) as usize
    }

    /// Grows the storage to hold at least `capacity` frames: to the next
    /// power of two at or above `capacity` when the current storage is
    /// smaller, otherwise not at all. The held frames are unchanged.
    pub fn ensure_capacity(&mut self, capacity: usize)
        requires
            capacity <= usize::MAX / 2 + 1,
        ensures
            final(self)@.start == old(self)@.start,
            final(self)@.frames == old(self)@.frames,
            capacity <= old(self)@.capacity ==> final(self)@.capacity == old(self)@.capacity,
            capacity > old(self)@.capacity ==> is_next_power_of_two(
                final(self)@.capacity as int,
                capacity as int,
            ),
            final(self)@.wf(),
    {
        proof { use_type_invariant(&*self); }
        if capacity <= self.data.len() {
            return;
        }
        let new_capacity = next_power_of_two(capacity);
        let mut new_data: Vec<T> = vec![T::default(); new_capacity];
        let start = self.start_frame;
        let len = self.len;
        let ghost old_view = self@;
        let mut i: usize = 0;
        while i < len
            invariant
                self@ == old_view,
                old_view.start == start,
                old_view.frames.len() == len,
                len < new_capacity,
                new_data.len() == new_capacity,
                0 <= i <= len,
                start >= 0,
                start + len <= i64::MAX,
                forall|j: int|
                    0 <= j < i ==> #[trigger] new_data@[(start + j) % (new_capacity as int)]
                        == old_view.frames[j],
            decreases len - i,
        {
            let value = match self.get(start + i as i64) {
                Some(v) => v,
                None => T::default(),
            };
            let slot = ((start as u64 + i as u64) % (new_capacity as u64)) as usize;
            let ghost before = new_data@;
            new_data[slot] = value;
            proof {
                assert forall|j: int| 0 <= j < i + 1 implies #[trigger] new_data@[(start + j)
                    % (new_capacity as int)] == old_view.frames[j] by {
                    if j < i {
                        lemma_mod_distinct(start as int, j, i as int, new_capacity as int);
                        assert(before[(start + j) % (new_capacity as int)] == old_view.frames[j]);
                    }
                }
            }
            i = i + 1;
        }
        self.data = new_data;
        assert(self@.frames =~= old_view.frames);
    }

    /// Appends `value` as the next frame. A full buffer overwrites its oldest
    /// frame, so its window moves forward by one.
    pub fn push(&mut self, value: T)
        requires
            old(self)@.end() < i64::MAX,
        ensures
            final(self)@ == old(self)@.pushed(value),
            final(self)@.wf(),
    {
        proof { use_type_invariant(&*self); }
        let ghost old_view = self@;
        let cap = self.data.len();
        if self.len < cap {
            let index = self.physical_index(self.len);
            self.data[index] = value;
            self.len = self.len + 1;
            proof {
                assert forall|j: int| 0 <= j < self.len implies #[trigger] self@.frames[j]
                    == old_view.frames.push(value)[j] by {
                    if j < self.len - 1 {
                        lemma_mod_distinct(self.start_frame as int, j, self.len - 1, cap as int);
                    }
                }
            }
            assert(self@.frames =~= old_view.frames.push(value));
            return;
        }
        let index = self.physical_index(0);
        self.data[index] = value;
        self.start_frame = self.start_frame + 1;
        proof {
            lemma_mod_wraps(old_view.start, cap as int);
            assert forall|j: int| 0 <= j < cap implies #[trigger] self@.frames[j]
                == old_view.frames.drop_first().push(value)[j] by {
                if j < cap - 1 {
                    assert(self.start_frame + j == old_view.start + (j + 1));
                    lemma_mod_distinct(old_view.start, 0, j + 1, cap as int);
                } else {
                    assert(self.start_frame + j == old_view.start + cap);
                }
            }
        }
        assert(self@.frames =~= old_view.frames.drop_first().push(value));
    }

    /// The sample of absolute frame `absolute_frame`, or `None` outside the
    /// held window.
    pub fn get(&self, absolute_frame: i64) -> (r: Option<T>)
        ensures
            r == self@.lookup(absolute_frame as int),
            self@.wf(),
    {
        proof { use_type_invariant(self); }
        if absolute_frame < self.start_frame || absolute_frame >= self.end_frame() {
            return None;
        }
        let local = (absolute_frame - self.start_frame) as usize;
        Some(self.data[self.physical_index(local)])
    }

    /// Forgets every frame before `absolute_frame` (clamped to the window).
    pub fn discard_before(&mut self, absolute_frame: i64)
        ensures
            final(self)@ == old(self)@.discarded_before(absolute_frame as int),
            final(self)@.wf(),
    {
        proof { use_type_invariant(&*self); }
        let ghost old_view = self@;
        let end = self.end_frame();
        let keep_from = if absolute_frame < self.start_frame {
            self.start_frame
        } else if absolute_frame > end {
            end
        } else {
            absolute_frame
        };
        let remove = (keep_from - self.start_frame) as usize;
        self.len = self.len - remove;
        self.start_frame = keep_from;
        assert(self@.frames =~= old_view.discarded_before(absolute_frame as int).frames);
    }
}

/// The smallest power of two at or above `n` (1 for `n == 0`).
pub fn next_power_of_two(n: usize) -> (p: usize)
    requires
        n <= usize::MAX / 2 + 1,
    ensures
        is_next_power_of_two(p as int, n as int),
{
    let mut p: usize = 1;
    let ghost mut k: nat = 0;
    proof { vstd::arithmetic::power2::lemma2_to64(); }
    while p < n
        invariant
            n <= usize::MAX / 2 + 1,
            p == pow2(k),
            p >= 1,
            p == 1 || p / 2 < n,
        decreases 2 * n - p,
    {
        proof {
            lemma_pow2_unfold(k + 1);
        }
        p = p * 2;
        proof {
            k = k + 1;
        }
    }
    p
}

} // verus!
