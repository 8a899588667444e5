//! Reusable payload buffers for sub-channel data: a fixed set of slots
//! whose buffers are recycled for every CIF instead of allocating anew.

use vstd::prelude::*;
use std::sync::Arc;
use crate::dab_frame::arc_from_bytes;

verus! {

/// `Arc::strong_count`: how many strong handles share the buffer; at least
/// one (the one passed in). The exact number depends on the other holders
/// at run time.
#[verifier::external_body]
fn strong_count(a: &Arc<Vec<u8>>) -> (n: usize)
    ensures n >= 1,
{
    Arc::strong_count(a)
}

/// `Arc::try_unwrap`: the buffer itself when this was the only strong
/// handle, the handle back otherwise.
#[verifier::external_body]
fn try_unwrap_buffer(a: Arc<Vec<u8>>) -> (r: Result<Vec<u8>, Arc<Vec<u8>>>)
    ensures
        match r {
            Ok(v) => v@ == a@,
            Err(b) => b@ == a@,
        },
{
    Arc::try_unwrap(a)
}

/// Pool of reusable byte buffers for sub-channel payloads.
pub struct SubchannelPool {
    slots: Vec<Option<Arc<Vec<u8>>>>,
}

impl SubchannelPool {
    /// Number of slots.
    pub closed spec fn spec_capacity(&self) -> nat {
        self.slots@.len()
    }

    /// Every slot holds a buffer.
    pub closed spec fn wf(&self) -> bool {
        forall|i: int| 0 <= i < self.slots@.len() ==> (#[trigger] self.slots@[i]) is Some
    }

    /// `num_slots` slots of `slot_capacity` zero bytes each.
    pub fn new(num_slots: usize, slot_capacity: usize) -> (p: Self)
        ensures p.wf(), p.spec_capacity() == num_slots,
    {
        let mut slots: Vec<Option<Arc<Vec<u8>>>> = Vec::new();
        let mut i: usize = 0;
        while i < num_slots
            invariant
                i <= num_slots,
                slots@.len() == i,
                forall|t: int| 0 <= t < i ==> (#[trigger] slots@[t]) is Some,
            decreases num_slots - i,
        {
            slots.push(Some(Arc::new(vec![0u8; slot_capacity])));
            i = i + 1;
        }
        SubchannelPool { slots }
    }

    /// A buffer of `size` zero bytes. The first slot that no one else
    /// holds is zeroed (grown if needed) and a copy of its first `size`
    /// bytes is returned as a new buffer; the slot itself stays in the pool
    /// and is never handed out. When every slot is held elsewhere a fresh
    /// buffer is made.
    pub fn acquire(&mut self, size: usize) -> (buf: Arc<[u8]>)
        requires old(self).wf(),
        ensures
            final(self).wf(),
            final(self).spec_capacity() == old(self).spec_capacity(),
            buf@ == Seq::new(size as nat, |i: int| 0u8),
    {
        let n = self.slots.len();
        let mut i: usize = 0;
        while i < n
            invariant
                i <= n,
                n == self.slots@.len(),
                n == old(self).slots@.len(),
                self.wf(),
            decreases n - i,
        {
            let mut taken: Option<Arc<Vec<u8>>> = None;
            self.slots.set_and_swap(i, &mut taken);
            match taken {
                Some(arc) => {
                    if strong_count(&arc) == 1 {
                        match try_unwrap_buffer(arc) {
                            Ok(mut storage) => {
                                if storage.len() < size {
                                    storage.resize(size, 0);
                                }
                                let mut k: usize = 0;
                                while k < size
                                    invariant
                                        k <= size,
                                        size <= storage@.len(),
                                        forall|t: int| 0 <= t < k ==> #[trigger] storage@[t] == 0u8,
                                    decreases size - k,
                                {
                                    storage.set(k, 0);
                                    k = k + 1;
                                }
                                let data = arc_from_bytes(vstd::slice::slice_subrange(storage.as_slice(), 0, size));
                                assert(data@ =~= Seq::new(size as nat, |i: int| 0u8));
                                self.slots.set(i, Some(Arc::new(storage)));
                                return data;
                            }
                            Err(shared) => {
                                self.slots.set(i, Some(shared));
                            }
                        }
                    } else {
                        self.slots.set(i, Some(arc));
                    }
                }
                None => {
                    self.slots.set(i, None);
                }
            }
            i = i + 1;
        }
        let fresh: Vec<u8> = vec![0u8; size];
        let data = arc_from_bytes(fresh.as_slice());
        assert(data@ =~= Seq::new(size as nat, |i: int| 0u8));
        data
    }

    /// Number of slots, free or held elsewhere.
    pub fn capacity(&self) -> (n: usize)
        ensures n == self.spec_capacity(),
    {
        self.slots.len()
    }

    /// Number of slots that no one else holds at the moment: the slots whose
    /// buffer has exactly one strong handle (the pool's own). The handle
    /// counts depend on the other holders at run time, so the result is
    /// stated over the counts observed: one per slot (0 for an empty slot),
    /// and the result is how many of them are 1.
    pub fn free_count(&self) -> (n: usize)
        ensures
            n <= self.spec_capacity(),
            exists|observed: Seq<usize>| #![trigger unshared_count(observed)]
                observed.len() == self.spec_capacity() && n == unshared_count(observed),
    {
        let mut observed: Vec<usize> = Vec::new();
        let mut i: usize = 0;
        while i < self.slots.len()
            invariant
                i <= self.slots@.len(),
                observed@.len() == i,
            decreases self.slots@.len() - i,
        {
            let c = match &self.slots[i] {
                Some(a) => strong_count(a),
                None => 0,
            };
            observed.push(c);
            i = i + 1;
        }
        let n = count_unshared(observed.as_slice());
        assert(observed@.len() == self.spec_capacity());
        n
    }
}

/// How many of the strong-handle counts are exactly 1.
pub open spec fn unshared_count(counts: Seq<usize>) -> nat
    decreases counts.len(),
{
    if counts.len() == 0 {
        0
    } else {
        unshared_count(counts.drop_last()) + if counts.last() == 1 { 1nat } else { 0 }
    }
}

proof fn lemma_unshared_count_bound(counts: Seq<usize>)
    ensures unshared_count(counts) <= counts.len(),
    decreases counts.len(),
{
    if counts.len() > 0 {
        lemma_unshared_count_bound(counts.drop_last());
    }
}

/// Number of buffers that only one holder has, from their strong-handle
/// counts.
pub fn count_unshared(counts: &[usize]) -> (n: usize)
    ensures n == unshared_count(counts@), n <= counts@.len(),
{
    let mut n: usize = 0;
    let mut i: usize = 0;
    while i < counts.len()
        invariant
            i <= counts@.len(),
            n == unshared_count(counts@.subrange(0, i as int)),
            n <= i,
        decreases counts@.len() - i,
    {
        assert(counts@.subrange(0, i + 1).drop_last() =~= counts@.subrange(0, i as int));
        if counts[i] == 1 {
            n = n + 1;
        }
        i = i + 1;
    }
    assert(counts@.subrange(0, counts@.len() as int) =~= counts@);
    proof { lemma_unshared_count_bound(counts@); }
    n
}

} // verus!
