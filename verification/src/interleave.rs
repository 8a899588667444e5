//! Time interleaving at CIF level (ETSI EN 300 401 §12.3): the depth-16
//! CIF interleaver and the matching de-interleaver of the receiver.
//!
//! Both keep the last sixteen CIFs in a circular history. `recent(d)` is
//! the CIF pushed `d` pushes before the most recent one (`recent(0)` is the
//! most recent).

use vstd::prelude::*;

verus! {

/// Delay (in CIFs) of byte lane `l` (Table 21/22 of ETSI EN 300 401).
pub open spec fn delay(l: int) -> int {
    if l == 0 { 0 } else if l == 1 { 8 } else if l == 2 { 4 } else if l == 3 { 12 }
    else if l == 4 { 2 } else if l == 5 { 10 } else if l == 6 { 6 } else if l == 7 { 14 }
    else if l == 8 { 1 } else if l == 9 { 9 } else if l == 10 { 5 } else if l == 11 { 13 }
    else if l == 12 { 3 } else if l == 13 { 11 } else if l == 14 { 7 } else { 15 }
}

pub const INTERLEAVE_DELAYS: [usize; 16] = [0, 8, 4, 12, 2, 10, 6, 14, 1, 9, 5, 13, 3, 11, 7, 15];

/// Delay of lane `lane` (0..16).
pub fn interleave_delay(lane: usize) -> (d: usize)
    requires lane < 16,
    ensures d == delay(lane as int), d < 16,
{
    if lane == 0 { 0 } else if lane == 1 { 8 } else if lane == 2 { 4 } else if lane == 3 { 12 }
    else if lane == 4 { 2 } else if lane == 5 { 10 } else if lane == 6 { 6 } else if lane == 7 { 14 }
    else if lane == 8 { 1 } else if lane == 9 { 9 } else if lane == 10 { 5 } else if lane == 11 { 13 }
    else if lane == 12 { 3 } else if lane == 13 { 11 } else if lane == 14 { 7 } else { 15 }
}

/// The delay table is a permutation of 0..16: distinct lanes have distinct delays.
pub proof fn lemma_delays_distinct(a: int, b: int)
    requires 0 <= a < 16, 0 <= b < 16, a != b,
    ensures delay(a) != delay(b), 0 <= delay(a) < 16,
{
}

// ── CIF interleaver (transmitter side) ───────────────────────────────────

pub struct CifInterleaver {
    history: Vec<Vec<u8>>,
    write_index: usize,
    filled: usize,
}

impl Default for CifInterleaver {
    /// The same empty interleaver as `new`.
    fn default() -> (c: Self)
        ensures
            c.wf(),
            c.filled() == 0,
            forall|d: int| 0 <= d < 16 ==> #[trigger] c.recent(d) == Seq::<u8>::empty(),
    {
        CifInterleaver::new()
    }
}

impl CifInterleaver {
    pub closed spec fn wf(&self) -> bool {
        &&& self.history.len() == 16
        &&& self.write_index < 16
        &&& self.filled <= 16
    }

    /// The payload pushed `d` pushes before the most recent one.
    pub closed spec fn recent(&self, d: int) -> Seq<u8> {
        self.history@[(self.write_index + 15 - d) % 16]@
    }

    /// Number of payloads pushed so far, saturating at 16.
    pub closed spec fn filled(&self) -> nat {
        self.filled as nat
    }

    pub fn new() -> (c: Self)
        ensures
            c.wf(),
            c.filled() == 0,
            forall|d: int| 0 <= d < 16 ==> #[trigger] c.recent(d) == Seq::<u8>::empty(),
    {
        let mut history: Vec<Vec<u8>> = Vec::new();
        let mut k: usize = 0;
        while k < 16
            invariant
                k <= 16,
                history.len() == k,
                forall|t: int| 0 <= t < k ==> #[trigger] history@[t]@ == Seq::<u8>::empty(),
            decreases 16 - k,
        {
            history.push(Vec::new());
            k = k + 1;
        }
        CifInterleaver { history, write_index: 0, filled: 0 }
    }

    /// Push one CIF payload. Once sixteen payloads have been pushed, returns
    /// the interleaved CIF: byte `i` comes from the payload pushed
    /// `delay(i % 16)` pushes ago (0 where that payload is shorter).
    #[verifier::spinoff_prover]
    #[verifier::rlimit(30)]
    pub fn push_and_interleave(&mut self, payload: &[u8]) -> (out: Option<Vec<u8>>)
        requires old(self).wf(),
        ensures
            final(self).wf(),
            final(self).recent(0) == payload@,
            forall|d: int| 1 <= d < 16 ==> #[trigger] final(self).recent(d) == old(self).recent(d - 1),
            final(self).filled() == (if old(self).filled() < 16 { old(self).filled() + 1 } else { 16 }),
            out is Some <==> final(self).filled() == 16,
            out matches Some(v) ==> v@.len() == payload@.len()
                && forall|i: int| 0 <= i < v@.len() ==> #[trigger] v@[i] == ({
                    let h = final(self).recent(delay(i % 16));
                    if i < h.len() { h[i] } else { 0u8 }
                }),
    {
        let wi = self.write_index;
        let mut slot: Vec<u8> = Vec::new();
        let mut k: usize = 0;
        while k < payload.len()
            invariant
                k <= payload@.len(),
                slot@ == payload@.subrange(0, k as int),
            decreases payload@.len() - k,
        {
            slot.push(payload[k]);
            k = k + 1;
        }
        assert(slot@ =~= payload@);
        self.history.set(wi, slot);
        if self.filled < 16 {
            self.filled = self.filled + 1;
        }
        let out = if self.filled == 16 {
            let len = payload.len();
            let mut tmp: Vec<u8> = Vec::new();
            let mut i: usize = 0;
            while i < len
                invariant
                    i <= len,
                    self.history.len() == 16,
                    wi < 16,
                    wi == old(self).write_index,
                    tmp@.len() == i,
                    forall|t: int| 0 <= t < i ==> #[trigger] tmp@[t] == ({
                        let h = self.history@[(wi + 16 - delay(t % 16)) % 16]@;
                        if t < h.len() { h[t] } else { 0u8 }
                    }),
                decreases len - i,
            {
                let d = interleave_delay(i % 16);
                let src_idx = (wi + 16 - d) % 16;
                let v: u8 = if i < self.history[src_idx].len() { self.history[src_idx][i] } else { 0 };
                tmp.push(v);
                i = i + 1;
            }
            Some(tmp)
        } else {
            None
        };
        self.write_index = (wi + 1) % 16;
        proof {
            assert forall|d: int| 1 <= d < 16 implies #[trigger] self.recent(d) == old(self).recent(d - 1) by {
                assert((self.write_index + 15 - d) % 16 == (wi + 15 - (d - 1)) % 16);
                assert((self.write_index + 15 - d) % 16 != wi);
            }
        }
        out
    }
}

// ── CIF de-interleaver (receiver side) ───────────────────────────────────

pub const DEPTH: usize = 16;

pub struct TimeDeInterleaver {
    cif_size: usize,
    ring: Vec<Vec<i16>>,
    write_ptr: usize,
    amount: usize,
}

impl TimeDeInterleaver {
    pub closed spec fn wf(&self) -> bool {
        &&& self.ring.len() == 16
        &&& self.write_ptr < 16
        &&& self.amount <= 16
        &&& forall|k: int| 0 <= k < 16 ==> (#[trigger] self.ring@[k]).len() == self.cif_size
    }

    pub closed spec fn spec_cif_size(&self) -> nat {
        self.cif_size as nat
    }

    /// The CIF pushed `d` pushes before the most recent one (all zeros for
    /// slots not written since creation or reset).
    pub closed spec fn recent(&self, d: int) -> Seq<i16> {
        self.ring@[(self.write_ptr + 15 - d) % 16]@
    }

    /// CIFs pushed since creation or reset, saturating at 16.
    pub closed spec fn amount(&self) -> nat {
        self.amount as nat
    }

    pub fn new(cif_size: usize) -> (d: Self)
        ensures
            d.wf(),
            d.spec_cif_size() == cif_size,
            d.amount() == 0,
            forall|k: int, i: int| 0 <= k < 16 && 0 <= i < cif_size ==> #[trigger] d.recent(k)[i] == 0,
    {
        let mut ring: Vec<Vec<i16>> = Vec::new();
        let mut k: usize = 0;
        while k < DEPTH
            invariant
                k <= 16,
                ring.len() == k,
                forall|t: int| 0 <= t < k ==> (#[trigger] ring@[t])@ == Seq::new(cif_size as nat, |i: int| 0i16),
            decreases 16 - k,
        {
            ring.push(vec![0i16; cif_size]);
            k = k + 1;
        }
        TimeDeInterleaver { cif_size, ring, write_ptr: 0, amount: 0 }
    }

    /// Push one CIF of soft bits and write the de-interleaved CIF to `out`:
    /// sample `i` is taken from the CIF pushed `(16 − delay(i % 16)) % 16`
    /// pushes ago. Returns whether sixteen CIFs have been seen, i.e. whether
    /// every tap read real data.
    #[verifier::spinoff_prover]
    #[verifier::rlimit(30)]
    pub fn push_cif(&mut self, cif_in: &[i16], out: &mut [i16]) -> (ready: bool)
        requires
            old(self).wf(),
            cif_in@.len() >= old(self).spec_cif_size(),
            old(out)@.len() >= old(self).spec_cif_size(),
        ensures
            final(self).wf(),
            final(self).spec_cif_size() == old(self).spec_cif_size(),
            final(self).recent(0) == cif_in@.subrange(0, old(self).spec_cif_size() as int),
            forall|d: int| 1 <= d < 16 ==> #[trigger] final(self).recent(d) == old(self).recent(d - 1),
            final(self).amount() == (if old(self).amount() < 16 { old(self).amount() + 1 } else { 16 }),
            ready == (final(self).amount() >= 16),
            final(out)@.len() == old(out)@.len(),
            forall|i: int| 0 <= i < old(self).spec_cif_size() ==> #[trigger] final(out)@[i]
                == final(self).recent((16 - delay(i % 16)) % 16)[i],
            forall|i: int| old(self).spec_cif_size() <= i < old(out)@.len() ==> #[trigger] final(out)@[i] == old(out)@[i],
    {
        let wp = self.write_ptr;
        let n = self.cif_size;
        let mut slot: Vec<i16> = Vec::new();
        let mut k: usize = 0;
        while k < n
            invariant
                k <= n,
                n <= cif_in@.len(),
                slot@ == cif_in@.subrange(0, k as int),
            decreases n - k,
        {
            slot.push(cif_in[k]);
            k = k + 1;
        }
        self.ring.set(wp, slot);
        let mut i: usize = 0;
        while i < n
            invariant
                i <= n,
                n == self.cif_size,
                wp == old(self).write_ptr,
                wp < 16,
                self.ring.len() == 16,
                forall|k: int| 0 <= k < 16 ==> (#[trigger] self.ring@[k]).len() == n,
                out@.len() == old(out)@.len(),
                n <= out@.len(),
                forall|t: int| 0 <= t < i ==> #[trigger] out@[t] == self.ring@[(wp + delay(t % 16)) % 16]@[t],
                forall|t: int| i <= t < out@.len() ==> #[trigger] out@[t] == old(out)@[t],
            decreases n - i,
        {
            let offset = interleave_delay(i % 16);
            let read_slot = (wp + offset) % 16;
            out[i] = self.ring[read_slot][i];
            i = i + 1;
        }
        self.write_ptr = (wp + 1) % 16;
        if self.amount < DEPTH {
            self.amount = self.amount + 1;
        }
        proof {
            assert forall|d: int| 1 <= d < 16 implies #[trigger] self.recent(d) == old(self).recent(d - 1) by {
                assert((self.write_ptr + 15 - d) % 16 == (wp + 15 - (d - 1)) % 16);
            }
            assert forall|t: int| 0 <= t < n implies #[trigger] out@[t]
                == self.recent((16 - delay(t % 16)) % 16)[t] by {
                let dl = delay(t % 16);
                assert((self.write_ptr + 15 - (16 - dl) % 16) % 16 == (wp + dl) % 16);
            }
        }
        self.amount >= DEPTH
    }

    /// Clear the history and restart the warm-up.
    pub fn reset(&mut self)
        requires old(self).wf(),
        ensures
            final(self).wf(),
            final(self).spec_cif_size() == old(self).spec_cif_size(),
            final(self).amount() == 0,
            forall|k: int, i: int| 0 <= k < 16 && 0 <= i < final(self).spec_cif_size() ==> #[trigger] final(self).recent(k)[i] == 0,
    {
        let n = self.cif_size;
        let mut k: usize = 0;
        while k < DEPTH
            invariant
                k <= 16,
                n == self.cif_size,
                self.ring.len() == 16,
                self.write_ptr < 16,
                self.amount <= 16,
                forall|t: int| 0 <= t < 16 ==> (#[trigger] self.ring@[t]).len() == n,
                forall|t: int, i: int| 0 <= t < k && 0 <= i < n ==> #[trigger] self.ring@[t]@[i] == 0,
            decreases 16 - k,
        {
            self.ring.set(k, vec![0i16; n]);
            k = k + 1;
        }
        self.write_ptr = 0;
        self.amount = 0;
    }

    /// Whether sixteen CIFs have been pushed since creation or reset.
    pub fn is_ready(&self) -> (b: bool)
        ensures b == (self.amount() >= 16),
    {
        self.amount >= DEPTH
    }
}

// ── History after a run of pushes ───────────────────────────────────────

impl CifInterleaver {
    /// `next` is what `push_and_interleave` leaves after pushing `payload`
    /// into `self` (the state part of its contract).
    pub open spec fn pushed(self, payload: Seq<u8>, next: Self) -> bool {
        &&& next.recent(0) == payload
        &&& forall|d: int| 1 <= d < 16 ==> #[trigger] next.recent(d) == self.recent(d - 1)
        &&& next.filled() == (if self.filled() < 16 { self.filled() + 1 } else { 16 })
    }
}

/// After pushes of `payloads` into a new interleaver, the history holds the
/// last sixteen payloads, newest first, and empty payloads before the first
/// push; the interleaver reports output from the sixteenth push on. With the
/// output rule of `push_and_interleave`, byte `i` of the output of push `k`
/// (counting from 1, `k >= 16`) is byte `i` of payload `k - delay(i % 16)`.
pub proof fn lemma_cif_history_after_pushes(states: Seq<CifInterleaver>, payloads: Seq<Seq<u8>>)
    requires
        states.len() == payloads.len() + 1,
        states[0].filled() == 0,
        forall|d: int| 0 <= d < 16 ==> #[trigger] states[0].recent(d) == Seq::<u8>::empty(),
        forall|t: int| 0 <= t < payloads.len() ==> #[trigger] states[t].pushed(payloads[t], states[t + 1]),
    ensures
        ({
            let k = payloads.len();
            let last = states[k as int];
            &&& last.filled() == (if k < 16 { k } else { 16 })
            &&& forall|d: int| 0 <= d < 16 ==> #[trigger] last.recent(d)
                    == (if d < k { payloads[k - 1 - d] } else { Seq::<u8>::empty() })
        }),
    decreases payloads.len(),
{
    let k = payloads.len();
    if k > 0 {
        lemma_cif_history_after_pushes(states.take(k as int), payloads.take(k - 1));
        assert(states[k - 1].pushed(payloads[k - 1], states[k as int]));
        assert(states.take(k as int)[k - 1] == states[k - 1]);
    }
}

/// The outputs of a run of pushes into a new interleaver: push `t` (from
/// 0) returns nothing for `t < 15`, and from then on byte `i` of its output
/// is byte `i` of the payload pushed `delay(i % 16)` pushes earlier (0 where
/// that payload is shorter). `outs[t]` is the output of push `t`, related to
/// the state after it as `push_and_interleave` promises.
pub proof fn lemma_cif_outputs_after_pushes(states: Seq<CifInterleaver>, payloads: Seq<Seq<u8>>,
    outs: Seq<Option<Seq<u8>>>)
    requires
        states.len() == payloads.len() + 1,
        outs.len() == payloads.len(),
        states[0].filled() == 0,
        forall|d: int| 0 <= d < 16 ==> #[trigger] states[0].recent(d) == Seq::<u8>::empty(),
        forall|t: int| 0 <= t < payloads.len() ==> #[trigger] states[t].pushed(payloads[t], states[t + 1]),
        forall|t: int| 0 <= t < outs.len() ==> (#[trigger] outs[t] is Some <==> states[t + 1].filled() == 16),
        forall|t: int| 0 <= t < outs.len() && #[trigger] outs[t] is Some ==> outs[t]->0.len() == payloads[t].len(),
        forall|t: int, i: int| 0 <= t < outs.len() && outs[t] is Some && 0 <= i < outs[t]->0.len() ==>
            #[trigger] outs[t]->0[i] == ({
                let h = states[t + 1].recent(delay(i % 16));
                if i < h.len() { h[i] } else { 0u8 }
            }),
    ensures
        forall|t: int| 0 <= t < outs.len() ==> (#[trigger] outs[t] is Some <==> t >= 15),
        forall|t: int| 0 <= t < outs.len() && #[trigger] outs[t] is Some ==> outs[t]->0.len() == payloads[t].len(),
        forall|t: int, i: int| 0 <= t < outs.len() && outs[t] is Some && 0 <= i < outs[t]->0.len() ==>
            #[trigger] outs[t]->0[i] == ({
                let p = payloads[t - delay(i % 16)];
                if i < p.len() { p[i] } else { 0u8 }
            }),
{
    assert forall|t: int| 0 <= t < outs.len() implies (#[trigger] outs[t] is Some <==> t >= 15) by {
        lemma_cif_history_prefix(states, payloads, t + 1);
    }
    assert forall|t: int, i: int| 0 <= t < outs.len() && outs[t] is Some && 0 <= i < outs[t]->0.len()
        implies #[trigger] outs[t]->0[i] == ({
            let p = payloads[t - delay(i % 16)];
            if i < p.len() { p[i] } else { 0u8 }
        }) by {
        lemma_cif_history_prefix(states, payloads, t + 1);
        lemma_delays_distinct(i % 16, if i % 16 == 0 { 1 } else { 0 });
        let d = delay(i % 16);
        assert(states[t + 1].recent(d) == payloads[t - d]);
    }
}

/// `lemma_cif_history_after_pushes` for the first `k` pushes of a run.
proof fn lemma_cif_history_prefix(states: Seq<CifInterleaver>, payloads: Seq<Seq<u8>>, k: int)
    requires
        states.len() == payloads.len() + 1,
        0 <= k <= payloads.len(),
        states[0].filled() == 0,
        forall|d: int| 0 <= d < 16 ==> #[trigger] states[0].recent(d) == Seq::<u8>::empty(),
        forall|t: int| 0 <= t < payloads.len() ==> #[trigger] states[t].pushed(payloads[t], states[t + 1]),
    ensures
        states[k].filled() == (if k < 16 { k } else { 16 }),
        forall|d: int| 0 <= d < 16 ==> #[trigger] states[k].recent(d)
            == (if d < k { payloads[k - 1 - d] } else { Seq::<u8>::empty() }),
{
    let st = states.take(k + 1);
    let ps = payloads.take(k);
    assert forall|t: int| 0 <= t < ps.len() implies #[trigger] st[t].pushed(ps[t], st[t + 1]) by {
        assert(states[t].pushed(payloads[t], states[t + 1]));
    }
    lemma_cif_history_after_pushes(st, ps);
    assert(st[k] == states[k]);
}

impl TimeDeInterleaver {
    /// `next` is what `push_cif` leaves after pushing `cif_in` into `self`
    /// (the state part of its contract).
    pub open spec fn pushed(self, cif_in: Seq<i16>, next: Self) -> bool {
        &&& next.spec_cif_size() == self.spec_cif_size()
        &&& next.recent(0) == cif_in.subrange(0, self.spec_cif_size() as int)
        &&& forall|d: int| 1 <= d < 16 ==> #[trigger] next.recent(d) == self.recent(d - 1)
        &&& next.amount() == (if self.amount() < 16 { self.amount() + 1 } else { 16 })
    }
}

/// After pushes of the CIFs `cifs` into a new (or reset) de-interleaver,
/// sample `i` of the history `d` pushes back is sample `i` of CIF `k - 1 - d`,
/// or 0 before the first push; the first fifteen pushes report not ready.
/// With the output rule of `push_cif`, sample `i` of push `t` (from 0) is
/// sample `i` of CIF `t - (16 - delay(i % 16)) % 16`, 0 where that is negative.
pub proof fn lemma_deinterleaver_history_after_pushes(states: Seq<TimeDeInterleaver>, cifs: Seq<Seq<i16>>)
    requires
        states.len() == cifs.len() + 1,
        states[0].amount() == 0,
        forall|d: int, i: int| 0 <= d < 16 && 0 <= i < states[0].spec_cif_size() ==> #[trigger] states[0].recent(d)[i] == 0,
        forall|t: int| 0 <= t < cifs.len() ==> #[trigger] cifs[t].len() >= states[0].spec_cif_size(),
        forall|t: int| 0 <= t < cifs.len() ==> #[trigger] states[t].pushed(cifs[t], states[t + 1]),
    ensures
        ({
            let k = cifs.len();
            let last = states[k as int];
            let n = states[0].spec_cif_size();
            &&& last.spec_cif_size() == n
            &&& last.amount() == (if k < 16 { k } else { 16 })
            &&& forall|d: int, i: int| 0 <= d < 16 && 0 <= i < n ==> #[trigger] last.recent(d)[i]
                    == (if d < k { cifs[k - 1 - d][i] } else { 0i16 })
        }),
    decreases cifs.len(),
{
    let k = cifs.len();
    if k > 0 {
        lemma_deinterleaver_history_after_pushes(states.take(k as int), cifs.take(k - 1));
        let prev = states[k - 1];
        let last = states[k as int];
        assert(states.take(k as int)[k - 1] == prev);
        assert(prev.pushed(cifs[k - 1], last));
        let n = states[0].spec_cif_size();
        assert forall|d: int, i: int| 0 <= d < 16 && 0 <= i < n implies #[trigger] last.recent(d)[i]
            == (if d < k { cifs[k - 1 - d][i] } else { 0i16 }) by {
            if d == 0 {
                assert(last.recent(0) == cifs[k - 1].subrange(0, n as int));
            } else {
                assert(last.recent(d) == prev.recent(d - 1));
                assert(prev.recent(d - 1)[i] == (if d - 1 < k - 1 { cifs.take(k - 1)[k - 2 - (d - 1)][i] } else { 0i16 }));
            }
        }
    }
}

/// The outputs of a run of pushes into a new or reset de-interleaver:
/// push `t` (from 0) reports ready exactly from `t = 15` on, and sample `i`
/// of its output is sample `i` of the CIF pushed `(16 − delay(i % 16)) % 16`
/// pushes earlier, or 0 when that reaches before the first push. `readies[t]`
/// and `outs[t]` are the result and the output of push `t`, related to the
/// state after it as `push_cif` promises.
pub proof fn lemma_deinterleaver_outputs_after_pushes(states: Seq<TimeDeInterleaver>, cifs: Seq<Seq<i16>>,
    readies: Seq<bool>, outs: Seq<Seq<i16>>)
    requires
        states.len() == cifs.len() + 1,
        readies.len() == cifs.len(),
        outs.len() == cifs.len(),
        states[0].amount() == 0,
        forall|d: int, i: int| 0 <= d < 16 && 0 <= i < states[0].spec_cif_size() ==> #[trigger] states[0].recent(d)[i] == 0,
        forall|t: int| 0 <= t < cifs.len() ==> #[trigger] cifs[t].len() >= states[0].spec_cif_size(),
        forall|t: int| 0 <= t < cifs.len() ==> #[trigger] states[t].pushed(cifs[t], states[t + 1]),
        forall|t: int| 0 <= t < readies.len() ==> #[trigger] readies[t] == (states[t + 1].amount() >= 16),
        forall|t: int, i: int| 0 <= t < outs.len() && 0 <= i < states[0].spec_cif_size() ==>
            #[trigger] outs[t][i] == states[t + 1].recent((16 - delay(i % 16)) % 16)[i],
    ensures
        forall|t: int| 0 <= t < readies.len() ==> #[trigger] readies[t] == (t >= 15),
        forall|t: int, i: int| 0 <= t < outs.len() && 0 <= i < states[0].spec_cif_size() ==>
            #[trigger] outs[t][i] == ({
                let back = (16 - delay(i % 16)) % 16;
                if back <= t { cifs[t - back][i] } else { 0i16 }
            }),
{
    assert forall|t: int| 0 <= t < readies.len() implies #[trigger] readies[t] == (t >= 15) by {
        lemma_deinterleaver_history_prefix(states, cifs, t + 1);
    }
    assert forall|t: int, i: int| 0 <= t < outs.len() && 0 <= i < states[0].spec_cif_size() implies
        #[trigger] outs[t][i] == ({
            let back = (16 - delay(i % 16)) % 16;
            if back <= t { cifs[t - back][i] } else { 0i16 }
        }) by {
        lemma_deinterleaver_history_prefix(states, cifs, t + 1);
        lemma_delays_distinct(i % 16, if i % 16 == 0 { 1 } else { 0 });
        let back = (16 - delay(i % 16)) % 16;
        assert(0 <= back < 16);
        assert(states[t + 1].recent(back)[i] == (if back < t + 1 { cifs[t - back][i] } else { 0i16 }));
    }
}

/// `lemma_deinterleaver_history_after_pushes` for the first `k` pushes.
proof fn lemma_deinterleaver_history_prefix(states: Seq<TimeDeInterleaver>, cifs: Seq<Seq<i16>>, k: int)
    requires
        states.len() == cifs.len() + 1,
        0 <= k <= cifs.len(),
        states[0].amount() == 0,
        forall|d: int, i: int| 0 <= d < 16 && 0 <= i < states[0].spec_cif_size() ==> #[trigger] states[0].recent(d)[i] == 0,
        forall|t: int| 0 <= t < cifs.len() ==> #[trigger] cifs[t].len() >= states[0].spec_cif_size(),
        forall|t: int| 0 <= t < cifs.len() ==> #[trigger] states[t].pushed(cifs[t], states[t + 1]),
    ensures
        states[k].spec_cif_size() == states[0].spec_cif_size(),
        states[k].amount() == (if k < 16 { k } else { 16 }),
        forall|d: int, i: int| 0 <= d < 16 && 0 <= i < states[0].spec_cif_size() ==> #[trigger] states[k].recent(d)[i]
            == (if d < k { cifs[k - 1 - d][i] } else { 0i16 }),
{
    let st = states.take(k + 1);
    let cs = cifs.take(k);
    assert forall|t: int| 0 <= t < cs.len() implies #[trigger] st[t].pushed(cs[t], st[t + 1]) by {
        assert(states[t].pushed(cifs[t], states[t + 1]));
    }
    assert forall|t: int| 0 <= t < cs.len() implies #[trigger] cs[t].len() >= st[0].spec_cif_size() by {
        assert(cifs[t].len() >= states[0].spec_cif_size());
    }
    lemma_deinterleaver_history_after_pushes(st, cs);
    assert(st[k] == states[k]);
}

} // verus!
