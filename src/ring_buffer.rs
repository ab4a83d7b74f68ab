use vstd::prelude::*;

verus! {

/// Position `k` steps after `start` in a circular buffer of `cap` slots (`start < cap`, `k < cap`).
pub open spec fn wrap(start: int, k: int, cap: int) -> int {
    if start + k < cap {
        start + k
    } else {
        start + k - cap
    }
}

/// Bytes a write can still take while `queued` bytes wait in a buffer of `cap` bytes:
/// one byte always stays free, so that a full buffer differs from an empty one.
pub open spec fn writable(cap: int, queued: int) -> int {
    cap - 1 - queued
}

/// How many bytes a write of `offered` bytes takes.
pub open spec fn accepted(cap: int, queued: int, offered: int) -> int {
    if writable(cap, queued) < offered {
        writable(cap, queued)
    } else {
        offered
    }
}

/// How many bytes a read into a buffer of `room` bytes takes.
pub open spec fn delivered(queued: int, room: int) -> int {
    if queued < room {
        queued
    } else {
        room
    }
}

/// Bytes written into an empty buffer come back unchanged from one read, when they fit in
/// the capacity minus one and the reader offers room for all of them.
pub proof fn lemma_write_then_read(cap: int, x: Seq<u8>, room: int)
    requires
        cap > 0,
        x.len() <= cap - 1,
        room >= x.len(),
    ensures
        accepted(cap, 0, x.len() as int) == x.len(),
        delivered((Seq::<u8>::empty() + x.take(x.len() as int)).len() as int, room) == x.len(),
        (Seq::<u8>::empty() + x.take(x.len() as int)).take(x.len() as int) == x,
        (Seq::<u8>::empty() + x.take(x.len() as int)).skip(x.len() as int).len() == 0,
{
    assert((Seq::<u8>::empty() + x.take(x.len() as int)) =~= x);
    assert(x.take(x.len() as int) =~= x);
}

/// Of a buffer of `cap` bytes exactly `cap - 1` can be filled: an empty buffer takes that
/// many from a longer write, and a buffer holding that many takes nothing more; an empty
/// buffer delivers nothing.
pub proof fn lemma_full_and_empty(cap: int, offered: int, more: int, room: int)
    requires
        cap > 0,
        offered >= cap - 1,
        more >= 0,
        room >= 0,
    ensures
        accepted(cap, 0, offered) == cap - 1,
        accepted(cap, cap - 1, more) == 0,
        delivered(0, room) == 0,
{
}

/// A single-producer single-consumer byte queue over a circular buffer of `capacity` bytes,
/// laid out as a read index, a write index and the data.
pub struct SharedRingBuffer {
    data: Vec<u8>,
    full_capacity: u32,
    read_index: u32,
    write_index: u32,
}

impl SharedRingBuffer {
    pub closed spec fn wf(&self) -> bool {
        &&& self.full_capacity > 0
        &&& self.data@.len() == self.full_capacity
        &&& self.read_index < self.full_capacity
        &&& self.write_index < self.full_capacity
    }

    pub closed spec fn spec_capacity(&self) -> nat {
        self.full_capacity as nat
    }

    closed spec fn queued_len(&self) -> int {
        if self.write_index >= self.read_index {
            self.write_index - self.read_index
        } else {
            self.full_capacity - self.read_index + self.write_index
        }
    }

    proof fn lemma_view_len(&self)
        requires
            self.wf(),
        ensures
            0 <= self.queued_len() < self.full_capacity,
            self.write_index == wrap(
                self.read_index as int,
                self.queued_len(),
                self.full_capacity as int,
            ),
    {
    }

    /// An empty buffer of `capacity` bytes, of which `capacity - 1` can hold data at once.
    pub fn new(capacity: u32) -> (r: SharedRingBuffer)
        requires
            capacity > 0,
        ensures
            r.wf(),
            r.spec_capacity() == capacity,
            r@.len() == 0,
    {
        let data = vec![0u8; capacity as usize];
        SharedRingBuffer { data, full_capacity: capacity, read_index: 0, write_index: 0 }
    }

    pub fn capacity(&self) -> (r: u32)
        ensures
            r == self.spec_capacity(),
    {
        self.full_capacity
    }

    /// Appends as much of `src` as fits and returns how many bytes were taken.
    pub fn write(&mut self, src: &[u8]) -> (r: usize)
        requires
            old(self).wf(),
        ensures
            final(self).wf(),
            final(self).spec_capacity() == old(self).spec_capacity(),
            r == accepted(old(self).spec_capacity() as int, old(self)@.len() as int, src@.len() as int),
            final(self)@ == old(self)@ + src@.take(r as int),
    {
        proof {
            self.lemma_view_len();
        }
        let cap = self.full_capacity as u64;
        let w = self.write_index as u64;
        let rd = self.read_index as u64;
        let available: u64 = if w >= rd {
            cap - (w - rd)
        } else {
            rd - w
        };
        if available <= 1 {
            return 0;
        }
        let to_write: usize = if ((available - 1) as usize) < src.len() {
            (available - 1) as usize
        } else {
            src.len()
        };
        let ghost q = self@;
        let ghost len = self.queued_len();
        let mut k: usize = 0;
        while k < to_write
            invariant
                self.wf(),
                self.full_capacity == cap,
                self.read_index == rd,
                self.write_index == w,
                self.queued_len() == len,
                q.len() == len,
                len + to_write < cap,
                w == wrap(rd as int, len, cap as int),
                k <= to_write <= src@.len(),
                forall|j: int| 0 <= j < len ==> #[trigger] self.data@[wrap(rd as int, j, cap as int)] == q[j],
                forall|j: int|
                    0 <= j < k ==> #[trigger] self.data@[wrap(rd as int, len + j, cap as int)]
                        == src@[j],
            decreases to_write - k,
        {
            let pos: u64 = if w + (k as u64) < cap {
                w + k as u64
            } else {
                w + k as u64 - cap
            };
            assert(pos == wrap(rd as int, len + k, cap as int));
            self.data.set(pos as usize, src[k]);
            k += 1;
        }
        let nw: u64 = if w + (to_write as u64) < cap {
            w + to_write as u64
        } else {
            w + to_write as u64 - cap
        };
        self.write_index = nw as u32;
        proof {
            assert(self.queued_len() == len + to_write);
            let tgt = q + src@.take(to_write as int);
            assert forall|j: int| 0 <= j < len + to_write implies #[trigger] self@[j] == tgt[j] by {
                if j >= len {
                    let m = j - len;
                    assert(self.data@[wrap(rd as int, len + m, cap as int)] == src@[m]);
                }
            }
            assert(self@ =~= tgt);
        }
        to_write
    }

    /// Moves the oldest queued bytes into the front of `buf`, as many as fit, and returns
    /// how many were moved.
    pub fn read(&mut self, buf: &mut [u8]) -> (r: usize)
        requires
            old(self).wf(),
        ensures
            final(self).wf(),
            final(self).spec_capacity() == old(self).spec_capacity(),
            r == delivered(old(self)@.len() as int, old(buf)@.len() as int),
            final(buf)@ == old(self)@.take(r as int) + old(buf)@.skip(r as int),
            final(self)@ == old(self)@.skip(r as int),
    {
        proof {
            self.lemma_view_len();
        }
        let cap = self.full_capacity as u64;
        let w = self.write_index as u64;
        let rd = self.read_index as u64;
        if rd == w {
            assert(buf@ =~= self@.take(0) + buf@.skip(0));
            assert(self@ =~= self@.skip(0));
            return 0;
        }
        let available: u64 = if w > rd {
            w - rd
        } else {
            cap - (rd - w)
        };
        let to_read: usize = if (available as usize) < buf.len() {
            available as usize
        } else {
            buf.len()
        };
        let ghost q = self@;
        let ghost b0 = buf@;
        let mut k: usize = 0;
        while k < to_read
            invariant
                self.wf(),
                self@ == q,
                self.full_capacity == cap,
                self.read_index == rd,
                rd < cap,
                k <= to_read <= q.len(),
                to_read <= b0.len(),
                buf@.len() == b0.len(),
                forall|j: int| 0 <= j < k ==> #[trigger] buf@[j] == q[j],
                forall|j: int| k <= j < b0.len() ==> #[trigger] buf@[j] == b0[j],
            decreases to_read - k,
        {
            let pos: u64 = if rd + (k as u64) < cap {
                rd + k as u64
            } else {
                rd + k as u64 - cap
            };
            assert(self.data@[pos as int] == q[k as int]);
            buf[k] = self.data[pos as usize];
            k += 1;
        }
        let nr: u64 = if rd + (to_read as u64) < cap {
            rd + to_read as u64
        } else {
            rd + to_read as u64 - cap
        };
        self.read_index = nr as u32;
        proof {
            assert(buf@ =~= q.take(to_read as int) + b0.skip(to_read as int));
            assert(self@ =~= q.skip(to_read as int));
        }
        to_read
    }
}

impl View for SharedRingBuffer {
    type V = Seq<u8>;

    /// The queued bytes, oldest first.
    closed spec fn view(&self) -> Seq<u8> {
        Seq::new(
            self.queued_len() as nat,
            |k: int| self.data@[wrap(self.read_index as int, k, self.full_capacity as int)],
        )
    }
}

} // verus!
