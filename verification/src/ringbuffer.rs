//! Capacity-bounded FIFO used between the sample producer and the
//! demodulator. Writes beyond the free space are dropped, reads return
//! whatever is buffered; neither side blocks.

use vstd::prelude::*;
use std::collections::VecDeque;

verus! {

/// What `put_data` does: the leading `written` items of `data` (as many as
/// fit in the free space) are appended, as clones, behind what was buffered.
pub open spec fn put_outcome<T: Clone>(before: Seq<T>, cap: nat, data: Seq<T>, after: Seq<T>, written: int) -> bool {
    &&& written == (if data.len() < cap - before.len() { data.len() as int } else { cap - before.len() })
    &&& after.len() == before.len() + written
    &&& after.subrange(0, before.len() as int) == before
    &&& forall|i: int| 0 <= i < written ==> cloned(data[i], #[trigger] after[before.len() + i])
}

/// What `get_data` does: the `read` oldest items (as many as `out` has room
/// for) move, in order, to the front of `out`; the rest of `out` is untouched.
pub open spec fn get_outcome<T>(before: Seq<T>, out_before: Seq<T>, after: Seq<T>, out_after: Seq<T>, read: int) -> bool {
    &&& read == (if out_before.len() < before.len() { out_before.len() as int } else { before.len() as int })
    &&& after == before.subrange(read, before.len() as int)
    &&& out_after.len() == out_before.len()
    &&& forall|i: int| 0 <= i < read ==> #[trigger] out_after[i] == before[i]
    &&& forall|i: int| read <= i < out_before.len() ==> #[trigger] out_after[i] == out_before[i]
}

pub struct RingBuffer<T> {
    inner: VecDeque<T>,
    capacity: usize,
}

impl<T: Clone> RingBuffer<T> {
    /// Buffered items, oldest first.
    pub closed spec fn contents(&self) -> Seq<T> {
        self.inner@
    }

    pub closed spec fn spec_capacity(&self) -> nat {
        self.capacity as nat
    }

    /// Never more items than the capacity.
    pub closed spec fn wf(&self) -> bool {
        self.inner@.len() <= self.capacity
    }

    pub fn new(capacity: usize) -> (rb: Self)
        ensures rb.wf(), rb.contents() == Seq::<T>::empty(), rb.spec_capacity() == capacity,
    {
        RingBuffer { inner: VecDeque::with_capacity(capacity), capacity }
    }

    /// Append as many leading items of `data` as fit; returns how many were written.
    pub fn put_data(&mut self, data: &[T]) -> (written: usize)
        requires old(self).wf(),
        ensures
            final(self).wf(),
            final(self).spec_capacity() == old(self).spec_capacity(),
            put_outcome(old(self).contents(), old(self).spec_capacity(), data@, final(self).contents(), written as int),
    {
        let available = self.capacity - self.inner.len();
        let to_write = if data.len() < available { data.len() } else { available };
        let ghost start = self.inner@;
        let mut i: usize = 0;
        while i < to_write
            invariant
                i <= to_write,
                to_write <= data@.len(),
                start.len() + to_write <= self.capacity,
                self.capacity == old(self).capacity,
                start == old(self).inner@,
                self.inner@.len() == start.len() + i,
                self.inner@.subrange(0, start.len() as int) == start,
                forall|t: int| 0 <= t < i ==> cloned(data@[t], #[trigger] self.inner@[start.len() + t]),
            decreases to_write - i,
        {
            let item = data[i].clone();
            let ghost before = self.inner@;
            self.inner.push_back(item);
            proof {
                assert(self.inner@.subrange(0, start.len() as int) =~= before.subrange(0, start.len() as int));
                assert(self.inner@[start.len() + i] == item);
            }
            i = i + 1;
        }
        to_write
    }

    /// Move up to `out.len()` items, oldest first, into `out`; returns how many were read.
    pub fn get_data(&mut self, out: &mut [T]) -> (read: usize)
        requires old(self).wf(),
        ensures
            final(self).wf(),
            final(self).spec_capacity() == old(self).spec_capacity(),
            get_outcome(old(self).contents(), old(out)@, final(self).contents(), final(out)@, read as int),
    {
        let n = out.len();
        let to_read = if n < self.inner.len() { n } else { self.inner.len() };
        let ghost start = self.inner@;
        let mut i: usize = 0;
        while i < to_read
            invariant
                i <= to_read,
                to_read <= start.len(),
                to_read <= n,
                n == out@.len(),
                n == old(out)@.len(),
                start == old(self).inner@,
                self.capacity == old(self).capacity,
                start.len() <= self.capacity,
                self.inner@ == start.subrange(i as int, start.len() as int),
                forall|t: int| 0 <= t < i ==> #[trigger] out@[t] == start[t],
                forall|t: int| i <= t < n ==> #[trigger] out@[t] == old(out)@[t],
            decreases to_read - i,
        {
            let item = self.inner.pop_front();
            match item {
                Some(x) => { out[i] = x; }
                None => { }
            }
            proof {
                assert(self.inner@ =~= start.subrange(i + 1, start.len() as int));
            }
            i = i + 1;
        }
        to_read
    }

    /// Number of buffered items.
    pub fn available_read(&self) -> (n: usize)
        ensures n == self.contents().len(),
    {
        self.inner.len()
    }

    /// Free space.
    pub fn available_write(&self) -> (n: usize)
        requires self.wf(),
        ensures n == self.spec_capacity() - self.contents().len(),
    {
        self.capacity - self.inner.len()
    }

    /// Buffered items and free space always add up to the capacity, in
    /// every state the operations reach (they all keep `wf`).
    pub proof fn lemma_read_and_write_space_fill_capacity(&self)
        requires self.wf(),
        ensures
            self.contents().len() <= self.spec_capacity(),
            self.contents().len() + (self.spec_capacity() - self.contents().len()) == self.spec_capacity(),
    {
    }

    /// Drop everything buffered.
    pub fn flush(&mut self)
        ensures
            final(self).wf(),
            final(self).contents() == Seq::<T>::empty(),
            final(self).spec_capacity() == old(self).spec_capacity(),
    {
        self.inner.clear();
    }
}

/// Items come out in the order they went in: writing `data` into an empty
/// buffer and then reading into `out` yields, at the front of `out`, clones
/// of the leading items of `data`, as many as both the capacity and `out`
/// allow; what is not read stays buffered, in order.
pub proof fn lemma_fifo_order<T: Clone>(
    cap: nat,
    data: Seq<T>,
    buffered: Seq<T>,
    written: int,
    out_before: Seq<T>,
    rest: Seq<T>,
    out_after: Seq<T>,
    read: int,
)
    requires
        put_outcome(Seq::<T>::empty(), cap, data, buffered, written),
        get_outcome(buffered, out_before, rest, out_after, read),
    ensures
        written == (if data.len() < cap { data.len() as int } else { cap as int }),
        read == (if out_before.len() < written { out_before.len() as int } else { written }),
        forall|i: int| 0 <= i < read ==> cloned(data[i], #[trigger] out_after[i]),
        rest.len() == written - read,
        forall|i: int| 0 <= i < rest.len() ==> cloned(data[read + i], #[trigger] rest[i]),
{
    assert forall|i: int| 0 <= i < read implies cloned(data[i], #[trigger] out_after[i]) by {
        assert(buffered[0 + i] == buffered[i]);
    }
    assert forall|i: int| 0 <= i < rest.len() implies cloned(data[read + i], #[trigger] rest[i]) by {
        assert(rest[i] == buffered[read + i]);
        assert(buffered[0 + (read + i)] == buffered[read + i]);
    }
}

} // verus!
