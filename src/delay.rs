use vstd::prelude::*;

use crate::ring_buffer::wrap;

verus! {

/// `n` is a power of two.
pub open spec fn is_pow2(n: nat) -> bool
    decreases n,
{
    if n == 1 {
        true
    } else if n < 2 || n % 2 == 1 {
        false
    } else {
        is_pow2(n / 2)
    }
}

/// The last `window.len()` samples after `xs` were written in order into a line whose last
/// samples were `window`.
pub open spec fn after_writes<T>(window: Seq<T>, xs: Seq<T>) -> Seq<T> {
    (window + xs).skip(xs.len() as int)
}

/// A circular delay line whose length is the least power of two that holds the longest delay.
pub struct DelayLine<T> {
    buffer: Vec<T>,
    write_idx: usize,
}

impl<T: Copy> DelayLine<T> {
    pub closed spec fn wf(&self) -> bool {
        &&& is_pow2(self.buffer@.len())
        &&& self.write_idx < self.buffer@.len()
    }

    pub closed spec fn spec_capacity(&self) -> nat {
        self.buffer@.len()
    }

    /// The last `capacity` samples held, oldest first.
    pub closed spec fn window(&self) -> Seq<T> {
        Seq::new(
            self.buffer@.len(),
            |k: int| self.buffer@[wrap(self.write_idx as int, k, self.buffer@.len() as int)],
        )
    }

    /// A line of `max_delay_samples.next_power_of_two()` samples, each `silence`.
    pub fn new(max_delay_samples: usize, silence: T) -> (r: DelayLine<T>)
        requires
            max_delay_samples <= usize::MAX / 2,
        ensures
            r.wf(),
            is_pow2(r.spec_capacity()),
            r.spec_capacity() >= max_delay_samples,
            r.spec_capacity() == 1 || r.spec_capacity() / 2 < max_delay_samples,
            r.window() == Seq::new(r.spec_capacity(), |k: int| silence),
    {
        let mut capacity: usize = 1;
        while capacity < max_delay_samples
            invariant
                is_pow2(capacity as nat),
                capacity >= 1,
                capacity == 1 || capacity / 2 < max_delay_samples,
                max_delay_samples <= usize::MAX / 2,
            decreases usize::MAX - capacity,
        {
            assert(is_pow2((capacity * 2) as nat)) by {
                assert((capacity * 2) as nat / 2 == capacity);
            }
            capacity = capacity * 2;
        }
        let mut buffer: Vec<T> = Vec::new();
        let mut i: usize = 0;
        while i < capacity
            invariant
                i <= capacity,
                buffer@ == Seq::new(i as nat, |k: int| silence),
            decreases capacity - i,
        {
            buffer.push(silence);
            i += 1;
            assert(buffer@ =~= Seq::new(i as nat, |k: int| silence));
        }
        let r = DelayLine { buffer, write_idx: 0 };
        assert(r.window() =~= Seq::new(r.spec_capacity(), |k: int| silence));
        r
    }

    pub fn capacity(&self) -> (r: usize)
        ensures
            r == self.spec_capacity(),
    {
        self.buffer.len()
    }

    /// Stores `sample` as the newest, dropping the oldest.
    pub fn write(&mut self, sample: T)
        requires
            old(self).wf(),
        ensures
            final(self).wf(),
            final(self).spec_capacity() == old(self).spec_capacity(),
            final(self).window() == after_writes(old(self).window(), seq![sample]),
    {
        let ghost w0 = self.window();
        let cap = self.buffer.len();
        let w = self.write_idx;
        self.buffer.set(w, sample);
        self.write_idx = if w + 1 == cap {
            0
        } else {
            w + 1
        };
        assert(self.window() =~= after_writes(w0, seq![sample]));
    }

    /// The sample written `delay` writes ago (`delay == 0` gives the oldest held).
    pub fn tap(&self, delay: usize) -> (r: T)
        requires
            self.wf(),
            delay < self.spec_capacity(),
        ensures
            r == self.window()[if delay == 0 {
                0
            } else {
                self.spec_capacity() - delay
            }],
    {
        let cap = self.buffer.len();
        let w = self.write_idx;
        let pos = if delay <= w {
            w - delay
        } else {
            w + (cap - delay)
        };
        self.buffer[pos]
    }
}

/// Writes compose: writing `a` and then `b` leaves what writing `a + b` at once leaves.
pub proof fn lemma_after_writes_compose<T>(window: Seq<T>, a: Seq<T>, b: Seq<T>)
    ensures
        after_writes(after_writes(window, a), b) == after_writes(window, a + b),
{
    assert(after_writes(after_writes(window, a), b) =~= after_writes(window, a + b));
}

/// After `k` writes (`1 <= k <= capacity - 1`), a tap `k` writes back returns the first of them.
pub proof fn lemma_tap_returns_first_written<T>(window: Seq<T>, xs: Seq<T>)
    requires
        1 <= xs.len() < window.len(),
    ensures
        after_writes(window, xs)[window.len() - xs.len()] == xs[0],
{
}

} // verus!
