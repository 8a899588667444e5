//! The frame bookkeeping between OFDM demodulation and the consumers of DAB
//! frames: OFDM block sequencing, assembly of the FIC symbols and of the
//! CIFs, time de-interleaving, the CIF counter, and the decoding of every
//! active sub-channel of a CIF (ETSI EN 300 401 §11, §12.3, §14).

use vstd::prelude::*;
use std::sync::Arc;
use crate::bits::ChannelData;
use crate::dab_params::DabParams;
use crate::dab_frame::{DabFrame, SubchannelFrame, subchannel_entries, arc_from_bytes};
use crate::prbs::{prbs_seq, prbs_sequence};
use crate::fib::{FibEvent, FibEventView, events_view};
use crate::fic::{FicHandler, FicView, FicRun, frame_result, view_after};
use crate::interleave::{delay, interleave_delay};
use crate::protection::{Protection, EepProtection, UepProtection, eep_params_ok, eep_mask, uep_mask,
    uep_profile_choice, depunctured};
use crate::viterbi::viterbi_decode;

verus! {

/// Soft bits per capacity unit (64 bits, ETSI EN 300 401 §7).
pub const CU_SIZE: usize = 64;

/// OFDM symbols carrying the MSC of one CIF in Mode I.
pub const NUMBER_OF_BLOCKS_PER_CIF: usize = 18;

// ── block sequencing ─────────────────────────────────────────────────────

/// What the pipeline does with a received OFDM block.
#[derive(Debug, Clone, Copy, PartialEq, Eq, Structural)]
pub enum SyncAction {
    /// In sequence: process it.
    Process,
    /// First block out of sequence: report the loss and drop it.
    SyncLost,
    /// Still waiting for block 2 after a loss: drop it silently.
    Discard,
    /// Block 2 arrived while waiting for it: sequence restored, process it.
    SyncRestored,
}

/// Tracks the block numbers 2..=L of consecutive DAB frames.
pub struct OfdmFrameSync {
    pub expected_block: i16,
    pub resyncing: bool,
    pub l: i16,
}

impl OfdmFrameSync {
    /// Expect block 2 of a frame of `l` symbols.
    pub fn new(l: i16) -> (s: Self)
        ensures s.expected_block == 2, !s.resyncing, s.l == l,
    {
        OfdmFrameSync { expected_block: 2, resyncing: false, l }
    }

    /// Advance on block `blkno`. A block out of sequence resets the
    /// expectation to block 2; the first such block reports the loss, later
    /// ones are discarded until block 2 restores the sequence. A block in
    /// sequence moves the expectation on, wrapping from L back to 2.
    pub fn advance(&mut self, blkno: i16) -> (a: SyncAction)
        ensures
            final(self).l == old(self).l,
            blkno != old(self).expected_block ==> {
                &&& final(self).expected_block == 2
                &&& final(self).resyncing
                &&& a == (if old(self).resyncing { SyncAction::Discard } else { SyncAction::SyncLost })
            },
            blkno == old(self).expected_block ==> {
                &&& final(self).expected_block == (if old(self).expected_block + 1 > old(self).l { 2 } else { old(self).expected_block + 1 })
                &&& !final(self).resyncing
                &&& a == (if old(self).resyncing { SyncAction::SyncRestored } else { SyncAction::Process })
            },
    {
        if blkno != self.expected_block {
            self.expected_block = 2;
            if self.resyncing {
                return SyncAction::Discard;
            }
            self.resyncing = true;
            return SyncAction::SyncLost;
        }
        let next: i32 = self.expected_block as i32 + 1;
        if next > self.l as i32 {
            self.expected_block = 2;
        } else {
            self.expected_block = next as i16;
        }
        if self.resyncing {
            self.resyncing = false;
            return SyncAction::SyncRestored;
        }
        SyncAction::Process
    }
}

// ── CIF counter ──────────────────────────────────────────────────────────

/// Quotient of integer division rounded toward zero (`b > 0`).
pub open spec fn tdiv(a: int, b: int) -> int {
    if a >= 0 { a / b } else { -((-a) / b) }
}

/// Remainder with the sign of the dividend (`b > 0`).
pub open spec fn trem(a: int, b: int) -> int {
    a - b * tdiv(a, b)
}

fn div_toward_zero(a: i64, b: i64) -> (q: i64)
    requires b > 0, a > i64::MIN,
    ensures q == tdiv(a as int, b as int),
{
    if a >= 0 { a / b } else { -((-a) / b) }
}

/// The counter that `adjust_cif_counter` computes.
pub open spec fn cif_counter_spec(cif_count_hi: i16, cif_count_lo: i16, minor: u32) -> (u8, u8) {
    let lo = cif_count_lo + (minor as i32);
    let hi = cif_count_hi + tdiv(lo, 250);
    ((trem(hi, 20)) as u8, (trem(lo, 250)) as u8)
}

/// The CIF counter of a frame emitted `minor` CIFs after the FIC announced
/// `(cif_count_hi, cif_count_lo)`: carries from the low part (mod 250)
/// into the high part (mod 20), ETSI EN 300 401 §14.1.
pub fn adjust_cif_counter(cif_count_hi: i16, cif_count_lo: i16, minor: u32) -> (r: (u8, u8))
    ensures
        r == cif_counter_spec(cif_count_hi, cif_count_lo, minor),
        cif_count_hi >= 0 && cif_count_lo >= 0 && minor <= i32::MAX ==> {
            &&& r.0 == (cif_count_hi + (cif_count_lo + minor) / 250) % 20
            &&& r.1 == (cif_count_lo + minor) % 250
            &&& r.0 < 20
            &&& r.1 < 250
        },
{
    let lo0: i64 = cif_count_lo as i64 + (minor as i32) as i64;
    let carry = div_toward_zero(lo0, 250);
    let lo: i64 = lo0 - 250 * carry;
    let hi0: i64 = cif_count_hi as i64 + carry;
    let hi: i64 = hi0 - 20 * div_toward_zero(hi0, 20);
    (hi as u8, lo as u8)
}

// ── bit packing ──────────────────────────────────────────────────────────

/// Value of the `n` bits (least significant bit of each byte) starting at
/// `base`, most significant first.
pub open spec fn bits_msb_first(bits: Seq<u8>, base: int, n: nat) -> nat
    decreases n,
{
    if n == 0 { 0 } else { bits_msb_first(bits, base, (n - 1) as nat) * 2 + (bits[base + n - 1] % 2) as nat }
}

/// Byte `k` of the packed form of `bits`.
pub open spec fn packed_byte(bits: Seq<u8>, k: int) -> u8 {
    bits_msb_first(bits, 8 * k, 8) as u8
}

/// The first `n` packed bytes of `bits`.
pub open spec fn packed_bytes(bits: Seq<u8>, n: nat) -> Seq<u8> {
    Seq::new(n, |k: int| packed_byte(bits, k))
}

proof fn lemma_bits_msb_first_bound(bits: Seq<u8>, base: int, n: nat)
    ensures bits_msb_first(bits, base, n) < vstd::arithmetic::power2::pow2(n),
    decreases n,
{
    if n > 0 {
        lemma_bits_msb_first_bound(bits, base, (n - 1) as nat);
        vstd::arithmetic::power2::lemma_pow2_unfold(n);
    } else {
        vstd::arithmetic::power2::lemma2_to64();
    }
}

/// Pack bits (one per byte, 0/1 in the least significant bit) into bytes,
/// most significant bit first: byte `k` of `out` takes bits `8k..8k+8`, for
/// every `k` with a whole group of 8 bits; a partial tail is ignored.
pub fn pack_bits(bits: &[u8], out: &mut [u8])
    ensures
        final(out)@.len() == old(out)@.len(),
        forall|k: int| 0 <= k < old(out)@.len() ==> #[trigger] final(out)@[k] ==
            if k < bits@.len() / 8 { packed_byte(bits@, k) } else { old(out)@[k] },
{
    let n = out.len();
    let blen = bits.len();
    let groups = blen / 8;
    let mut k: usize = 0;
    while k < n && k < groups
        invariant
            k <= n,
            k <= groups,
            groups == bits@.len() / 8,
            blen == bits@.len(),
            n == out@.len(),
            out@.len() == old(out)@.len(),
            forall|t: int| 0 <= t < n ==> #[trigger] out@[t] ==
                if t < k { packed_byte(bits@, t) } else { old(out)@[t] },
        decreases n - k,
    {
        let mut acc: u8 = 0;
        let mut j: usize = 0;
        assert(8 * k + 8 <= blen) by (nonlinear_arith) requires k < groups, groups == blen / 8;
        let base = 8 * k;
        while j < 8
            invariant
                j <= 8,
                k < groups,
                base == 8 * k,
                base + 8 <= bits@.len(),
                groups == bits@.len() / 8,
                acc as nat == bits_msb_first(bits@, 8 * k as int, j as nat),
            decreases 8 - j,
        {
            proof {
                lemma_bits_msb_first_bound(bits@, 8 * k as int, j as nat);
                vstd::arithmetic::power2::lemma2_to64();
                assert(acc < 128) by {
                    if j < 7 {
                        vstd::arithmetic::power2::lemma_pow2_strictly_increases(j as nat, 7);
                    }
                }
            }
            let b = bits[base + j];
            let next: u8 = (acc << 1) | (b & 1);
            assert(next == acc * 2 + b % 2) by (bit_vector) requires acc < 128u8, next == (acc << 1u8) | (b & 1u8);
            acc = next;
            j = j + 1;
        }
        out[k] = acc;
        k = k + 1;
    }
    assert forall|t: int| 0 <= t < n implies #[trigger] out@[t] ==
        if t < bits@.len() / 8 { packed_byte(bits@, t) } else { old(out)@[t] } by {
        if t < bits@.len() / 8 { assert(t < k); }
    }
}

/// The four 768-bit FIC codewords of a frame, packed into the four 96-byte
/// FIC slots of the frame's CIFs; a missing codeword leaves its slot zero.
pub open spec fn fic_slot(bits: Seq<u8>, s: int) -> Seq<u8> {
    let start = s * 768;
    let end = if (s + 1) * 768 < bits.len() { (s + 1) * 768 } else { bits.len() as int };
    if end > start {
        Seq::new(96, |k: int| if k < (end - start) / 8 { packed_byte(bits.subrange(start, end), k) } else { 0u8 })
    } else {
        Seq::new(96, |k: int| 0u8)
    }
}

pub fn replicate_fic_across_cifs(bits: &[u8]) -> (slots: [[u8; 96]; 4])
    ensures forall|s: int| 0 <= s < 4 ==> #[trigger] slots[s]@ == fic_slot(bits@, s),
{
    let mut slots: [[u8; 96]; 4] = [[0u8; 96]; 4];
    let mut s: usize = 0;
    while s < 4
        invariant
            s <= 4,
            forall|t: int| 0 <= t < s ==> #[trigger] slots[t]@ == fic_slot(bits@, t),
            forall|t: int| s <= t < 4 ==> #[trigger] slots[t]@ == Seq::new(96, |k: int| 0u8),
        decreases 4 - s,
    {
        let start = s * 768;
        let end = if (s + 1) * 768 < bits.len() { (s + 1) * 768 } else { bits.len() };
        let mut slot: [u8; 96] = [0u8; 96];
        assert(slot@ =~= Seq::new(96, |k: int| 0u8));
        if end > start {
            let part = vstd::slice::slice_subrange(bits, start, end);
            pack_bits(part, &mut slot);
        }
        assert(slot@ =~= fic_slot(bits@, s as int));
        slots[s] = slot;
        s = s + 1;
    }
    slots
}

// ── sub-channel geometry ─────────────────────────────────────────────────

/// Where a sub-channel sits in the CIF and how much it decodes to.
pub struct SubchannelLayout {
    /// First soft bit in the CIF.
    pub start: usize,
    /// Number of soft bits.
    pub size: usize,
    /// Decoded bits per CIF (24 per kbit/s).
    pub out_size: usize,
    /// Decoded bytes per CIF.
    pub byte_size: usize,
}

pub open spec fn layout_start(d: ChannelData) -> int { d.start_cu * 64 }
pub open spec fn layout_size(d: ChannelData) -> int { d.size * 64 }
pub open spec fn layout_out_size(d: ChannelData) -> int { d.bitrate * 24 }

/// Geometry of a sub-channel from its FIG 0/1 description.
pub fn subchannel_layout(data: &ChannelData) -> (l: SubchannelLayout)
    requires data.start_cu >= 0, data.size >= 0, data.bitrate >= 0,
    ensures
        l.start == layout_start(*data),
        l.size == layout_size(*data),
        l.out_size == layout_out_size(*data),
        l.byte_size == layout_out_size(*data) / 8,
{
    let out_size = data.bitrate as usize * 24;
    SubchannelLayout {
        start: data.start_cu as usize * CU_SIZE,
        size: data.size as usize * CU_SIZE,
        out_size,
        byte_size: out_size / 8,
    }
}

/// Energy-dispersal sequence for `out_size` decoded bits (ETSI EN 300 401 §10.1).
pub fn build_msc_descrambler(out_size: usize) -> (v: Vec<u8>)
    ensures v@ == prbs_seq(out_size as nat),
{
    prbs_sequence(out_size)
}

// ── FIC symbols of a frame ───────────────────────────────────────────────

/// Collects the three FIC symbols (blocks 2, 3 and 4) of a frame.
pub struct FicFrameAssembler {
    fib_input: Vec<i16>,
    fibs_bytes: Vec<u8>,
}

/// `s` with the first `n` values of `b` written from position `off`.
pub open spec fn overwrite<T>(s: Seq<T>, off: int, b: Seq<T>, n: int) -> Seq<T> {
    Seq::new(s.len(), |i: int| if off <= i < off + n { b[i - off] } else { s[i] })
}

fn copy_soft_bits(dst: &mut Vec<i16>, offset: usize, src: &[i16], n: usize)
    requires n <= src@.len(), offset + n <= old(dst)@.len(),
    ensures final(dst)@ == overwrite(old(dst)@, offset as int, src@, n as int),
{
    let dl = dst.len();
    let mut i: usize = 0;
    while i < n
        invariant
            i <= n,
            n <= src@.len(),
            dl == dst@.len(),
            offset + n <= dl,
            dst@.len() == old(dst)@.len(),
            forall|t: int| 0 <= t < dst@.len() ==> #[trigger] dst@[t] ==
                if offset <= t < offset + i { src@[t - offset] } else { old(dst)@[t] },
        decreases n - i,
    {
        dst.set(offset + i, src[i]);
        i = i + 1;
    }
    assert(dst@ =~= overwrite(old(dst)@, offset as int, src@, n as int));
}

impl FicFrameAssembler {
    /// The soft bits collected so far.
    pub closed spec fn bits(&self) -> Seq<i16> {
        self.fib_input@
    }

    pub closed spec fn wf(&self) -> bool {
        self.fibs_bytes@.len() == 3072
    }

    /// Room for three symbols of `bits_per_block` soft bits, all zero.
    pub fn new(bits_per_block: usize) -> (a: Self)
        requires 3 * bits_per_block <= usize::MAX,
        ensures a.wf(), a.bits() == Seq::new((3 * bits_per_block) as nat, |i: int| 0i16),
    {
        let a = FicFrameAssembler { fib_input: vec![0i16; 3 * bits_per_block], fibs_bytes: vec![0u8; 4 * 768] };
        assert(a.bits() =~= Seq::new((3 * bits_per_block) as nat, |i: int| 0i16));
        a
    }

    /// Store FIC symbol `blkno` (2, 3 or 4): at most `bits_per_block` soft
    /// bits go to position `(blkno − 2) · bits_per_block`. Returns whether
    /// this was the last FIC symbol of the frame.
    pub fn store_block(&mut self, blkno: i16, bdata: &[i16], bits_per_block: usize) -> (complete: bool)
        requires
            blkno >= 2,
            (blkno - 2) * bits_per_block + (if bits_per_block < bdata@.len() { bits_per_block as int } else { bdata@.len() as int })
                <= old(self).bits().len(),
        ensures
            final(self).wf() == old(self).wf(),
            complete == (blkno == 4),
            final(self).bits() == overwrite(old(self).bits(), (blkno - 2) * bits_per_block, bdata@,
                if bits_per_block < bdata@.len() { bits_per_block as int } else { bdata@.len() as int }),
    {
        let copy_len = if bits_per_block < bdata.len() { bits_per_block } else { bdata.len() };
        let k = (blkno - 2) as usize;
        let flen = self.fib_input.len();
        assert(k * bits_per_block <= flen) by (nonlinear_arith)
            requires k == blkno - 2, (blkno - 2) * bits_per_block + copy_len <= flen, copy_len >= 0;
        let offset = k * bits_per_block;
        copy_soft_bits(&mut self.fib_input, offset, bdata, copy_len);
        blkno == 4
    }

    /// Decode the collected FIC symbols and pack the four codewords into
    /// the FIC slots of the frame's four CIFs; also returns the label
    /// announcements.
    pub fn decode_slots(&mut self, fic_handler: &mut FicHandler) -> (r: ([[u8; 96]; 4], Vec<FibEvent>))
        requires
            old(self).wf(),
            old(fic_handler).wf(),
            old(self).bits().len() >= 3 * old(fic_handler)@.bits_per_block,
        ensures
            final(self).wf(),
            final(self).bits() == old(self).bits(),
            final(fic_handler).wf(),
            ({
                let zeros = Seq::new(3072, |i: int| 0u8);
                let falses = Seq::new(4, |i: int| false);
                if old(fic_handler)@.running {
                    let fr = frame_result(old(fic_handler)@, old(self).bits(), zeros, falses);
                    &&& final(fic_handler)@ == view_after(old(fic_handler)@, fr)
                    &&& events_view(r.1@) == fr.events
                    &&& forall|s: int| 0 <= s < 4 ==> #[trigger] r.0[s]@ == fic_slot(fr.out, s)
                } else {
                    &&& final(fic_handler)@ == old(fic_handler)@
                    &&& r.1@.len() == 0
                    &&& forall|s: int| 0 <= s < 4 ==> #[trigger] r.0[s]@ == fic_slot(zeros, s)
                }
            }),
    {
        let mut valid: [bool; 4] = [false; 4];
        let mut i: usize = 0;
        while i < self.fibs_bytes.len()
            invariant
                i <= self.fibs_bytes@.len(),
                self.fibs_bytes@.len() == 3072,
                self.fib_input@ == old(self).fib_input@,
                forall|t: int| 0 <= t < i ==> #[trigger] self.fibs_bytes@[t] == 0u8,
            decreases self.fibs_bytes@.len() - i,
        {
            self.fibs_bytes.set(i, 0);
            i = i + 1;
        }
        assert(self.fibs_bytes@ =~= Seq::new(3072, |i: int| 0u8));
        assert(valid@ =~= Seq::new(4, |i: int| false));
        let mut out: Vec<u8> = Vec::new();
        std::mem::swap(&mut out, &mut self.fibs_bytes);
        let events = fic_handler.process_fic_block(self.fib_input.as_slice(), out.as_mut_slice(), &mut valid);
        self.fibs_bytes = out;
        proof {
            if old(fic_handler)@.running {
                crate::fic::lemma_run_lengths(
                    crate::fic::frame_start(old(fic_handler)@, Seq::new(3072, |i: int| 0u8), Seq::new(4, |i: int| false)),
                    self.fib_input@.subrange(0, (3 * old(fic_handler)@.bits_per_block) as int),
                    crate::fic::fics_in_frame(old(fic_handler)@.bits_per_block));
            }
        }
        let slots = replicate_fic_across_cifs(self.fibs_bytes.as_slice());
        (slots, events)
    }

    /// The soft bits collected so far.
    pub fn current_bits(&self) -> (b: &[i16])
        ensures b@ == self.bits(),
    {
        self.fib_input.as_slice()
    }
}

// ── CIF assembly and time de-interleaving ────────────────────────────────

/// Collects the MSC symbols of each CIF, de-interleaves in time over the
/// last sixteen CIFs and emits one frame per CIF once the history is full.
pub struct CifAssembler {
    cif_in: Vec<i16>,
    cif_vector: Vec<Vec<i16>>,
    fib_vector: Vec<[u8; 96]>,
    temp: Vec<i16>,
    index_out: usize,
    amount: usize,
    minor: u32,
    cif_count_hi: i16,
    cif_count_lo: i16,
    sync_just_lost: bool,
}

/// State of a CIF assembler.
pub ghost struct CifView {
    /// The CIF being collected.
    pub cif_in: Seq<i16>,
    /// Sixteen history slots of past CIFs.
    pub history: Seq<Seq<i16>>,
    /// Sixteen FIC slots (packed FIBs) matching the history slots.
    pub fib_slots: Seq<Seq<u8>>,
    /// The last de-interleaved CIF.
    pub deinterleaved: Seq<i16>,
    /// Slot of the next CIF.
    pub index_out: int,
    /// CIFs stored during the warm-up (up to 15).
    pub amount: int,
    /// CIFs emitted since the last FIC counter update.
    pub minor: u32,
    pub cif_count_hi: i16,
    pub cif_count_lo: i16,
    pub sync_just_lost: bool,
}

impl View for CifAssembler {
    type V = CifView;

    closed spec fn view(&self) -> CifView {
        CifView {
            cif_in: self.cif_in@,
            history: Seq::new(self.cif_vector@.len(), |k: int| self.cif_vector@[k]@),
            fib_slots: Seq::new(self.fib_vector@.len(), |k: int| self.fib_vector@[k]@),
            deinterleaved: self.temp@,
            index_out: self.index_out as int,
            amount: self.amount as int,
            minor: self.minor,
            cif_count_hi: self.cif_count_hi,
            cif_count_lo: self.cif_count_lo,
            sync_just_lost: self.sync_just_lost,
        }
    }
}

/// Sample `i` of the CIF de-interleaved from the history `h` when the
/// newest CIF sits in slot `io`: it comes from the CIF `delay(i mod 16)`
/// slots further on (ETSI EN 300 401 §12.3).
pub open spec fn deinterleave_at(h: Seq<Seq<i16>>, io: int, i: int) -> i16 {
    h[(io + delay(i % 16)) % 16][i]
}

impl CifAssembler {
    pub closed spec fn wf(&self) -> bool {
        &&& self.cif_vector@.len() == 16
        &&& self.fib_vector@.len() == 16
        &&& forall|k: int| 0 <= k < 16 ==> (#[trigger] self.cif_vector@[k])@.len() == self.cif_in@.len()
        &&& self.temp@.len() == self.cif_in@.len()
        &&& self.index_out < 16
        &&& self.amount <= 15
    }

    /// Buffers for CIFs of 18 symbols of `bits_per_block` soft bits, an
    /// empty history and no CIF counter yet.
    pub fn new(bits_per_block: usize) -> (a: Self)
        requires 18 * bits_per_block <= usize::MAX,
        ensures
            a.wf(),
            a@.cif_in == Seq::new((18 * bits_per_block) as nat, |i: int| 0i16),
            a@.index_out == 0,
            a@.amount == 0,
            a@.minor == 0,
            a@.cif_count_hi == -1,
            a@.cif_count_lo == -1,
            !a@.sync_just_lost,
    {
        let cif_buf_size = NUMBER_OF_BLOCKS_PER_CIF * bits_per_block;
        let mut cif_vector: Vec<Vec<i16>> = Vec::new();
        let mut fib_vector: Vec<[u8; 96]> = Vec::new();
        let mut k: usize = 0;
        while k < 16
            invariant
                k <= 16,
                cif_vector@.len() == k,
                fib_vector@.len() == k,
                forall|t: int| 0 <= t < k ==> (#[trigger] cif_vector@[t])@.len() == cif_buf_size,
            decreases 16 - k,
        {
            cif_vector.push(vec![0i16; cif_buf_size]);
            fib_vector.push([0u8; 96]);
            k = k + 1;
        }
        let a = CifAssembler {
            cif_in: vec![0i16; cif_buf_size],
            cif_vector,
            fib_vector,
            temp: vec![0i16; cif_buf_size],
            index_out: 0,
            amount: 0,
            minor: 0,
            cif_count_hi: -1,
            cif_count_lo: -1,
            sync_just_lost: false,
        };
        assert(a@.cif_in =~= Seq::new((18 * bits_per_block) as nat, |i: int| 0i16));
        a
    }

    /// Store MSC symbol `blkno` (5 onwards) at its place in the CIF; returns
    /// whether it was the last symbol of the CIF.
    pub fn store_msc_block(&mut self, blkno: i16, bdata: &[i16], bits_per_block: usize) -> (complete: bool)
        requires
            old(self).wf(),
            18 * bits_per_block <= old(self)@.cif_in.len(),
        ensures
            final(self).wf(),
            ({
                let idx = ((blkno - 5) as usize) % 18;
                let n = if bits_per_block < bdata@.len() { bits_per_block as int } else { bdata@.len() as int };
                &&& complete == (idx == 17)
                &&& final(self)@ == (CifView { cif_in: overwrite(old(self)@.cif_in, idx * bits_per_block, bdata@, n), ..old(self)@ })
            }),
    {
        let cif_index = ((blkno as i32 - 5) as usize) % NUMBER_OF_BLOCKS_PER_CIF;
        assert(cif_index == ((blkno - 5) as usize) % 18);
        let copy_len = if bits_per_block < bdata.len() { bits_per_block } else { bdata.len() };
        let clen = self.cif_in.len();
        assert(cif_index * bits_per_block + copy_len <= clen) by (nonlinear_arith)
            requires cif_index < 18, 18 * bits_per_block <= clen, copy_len <= bits_per_block;
        let offset = cif_index * bits_per_block;
        let ghost before = self@;
        copy_soft_bits(&mut self.cif_in, offset, bdata, copy_len);
        assert(self@.history =~= before.history);
        assert(self@.fib_slots =~= before.fib_slots);
        cif_index == NUMBER_OF_BLOCKS_PER_CIF - 1
    }

    /// Record the FIC slots of a new frame for the next four CIFs.
    pub fn record_fic_slots(&mut self, fic_slots: [[u8; 96]; 4])
        requires old(self).wf(),
        ensures
            final(self).wf(),
            final(self)@ == (CifView {
                fib_slots: Seq::new(16, |k: int|
                    if (k - old(self)@.index_out + 16) % 16 < 4 { fic_slots[(k - old(self)@.index_out + 16) % 16]@ }
                    else { old(self)@.fib_slots[k] }),
                ..old(self)@
            }),
    {
        let ghost io = self.index_out as int;
        let mut i: usize = 0;
        while i < 4
            invariant
                i <= 4,
                self.wf(),
                io == self.index_out,
                self@ == (CifView { fib_slots: self@.fib_slots, ..old(self)@ }),
                forall|k: int| 0 <= k < 16 ==> #[trigger] self.fib_vector@[k]@ ==
                    if (k - io + 16) % 16 < i { fic_slots[(k - io + 16) % 16]@ } else { old(self)@.fib_slots[k] },
            decreases 4 - i,
        {
            let sum = self.index_out + i;
            let slot = sum & 0x0F;
            assert(slot == sum % 16) by (bit_vector) requires slot == sum & 0x0Fusize;
            let ghost before = self@;
            self.fib_vector.set(slot, fic_slots[i]);
            assert(self@.history =~= before.history);
            i = i + 1;
        }
        assert(self@.fib_slots =~= Seq::new(16, |k: int|
            if (k - old(self)@.index_out + 16) % 16 < 4 { fic_slots[(k - old(self)@.index_out + 16) % 16]@ }
            else { old(self)@.fib_slots[k] }));
    }

    /// Take the CIF counter of the latest FIC frame.
    pub fn update_cif_counter(&mut self, hi: i16, lo: i16)
        requires old(self).wf(),
        ensures
            final(self).wf(),
            final(self)@ == (CifView { cif_count_hi: hi, cif_count_lo: lo, minor: 0, ..old(self)@ }),
    {
        self.cif_count_hi = hi;
        self.cif_count_lo = lo;
        self.minor = 0;
    }

    /// Note that the block sequence broke: the next frame carries the mark.
    pub fn note_sync_loss(&mut self)
        requires old(self).wf(),
        ensures
            final(self).wf(),
            final(self)@ == (CifView { minor: 0, sync_just_lost: true, ..old(self)@ }),
    {
        self.minor = 0;
        self.sync_just_lost = true;
    }

    /// Load `current_cif` (as far as it reaches) and finish the CIF.
    pub fn finish_cif(&mut self, current_cif: &[i16]) -> (f: Option<DabFrame>)
        requires old(self).wf(),
        ensures
            final(self).wf(),
            finished(
                CifView {
                    cif_in: overwrite(old(self)@.cif_in, 0, current_cif@,
                        if old(self)@.cif_in.len() < current_cif@.len() { old(self)@.cif_in.len() as int } else { current_cif@.len() as int }),
                    ..old(self)@
                },
                final(self)@, f),
            f matches Some(fr) ==> subchannel_entries(fr.subchannels) == Seq::<(u8, Seq<u8>)>::empty(),
    {
        let copy_len = if self.cif_in.len() < current_cif.len() { self.cif_in.len() } else { current_cif.len() };
        let ghost before = self@;
        copy_soft_bits(&mut self.cif_in, 0, current_cif, copy_len);
        assert(self@.history =~= before.history);
        assert(self@.fib_slots =~= before.fib_slots);
        self.finish_loaded_cif()
    }

    /// Finish the loaded CIF: store it in the history, de-interleave, and
    /// once the warm-up is over and a CIF counter is known, emit a frame
    /// with the FIC slot and the adjusted counter of this CIF.
    pub fn finish_loaded_cif(&mut self) -> (f: Option<DabFrame>)
        requires old(self).wf(),
        ensures
            final(self).wf(),
            finished(old(self)@, final(self)@, f),
            f matches Some(fr) ==> subchannel_entries(fr.subchannels) == Seq::<(u8, Seq<u8>)>::empty(),
    {
        let n = self.temp.len();
        let io = self.index_out;
        let mut slot: Vec<i16> = Vec::new();
        let mut k: usize = 0;
        while k < n
            invariant
                k <= n,
                n == self.cif_in@.len(),
                slot@ == self.cif_in@.subrange(0, k as int),
            decreases n - k,
        {
            slot.push(self.cif_in[k]);
            k = k + 1;
        }
        assert(slot@ =~= self.cif_in@);
        let ghost before = self@;
        self.cif_vector.set(io, slot);
        assert(self@.history =~= before.history.update(io as int, before.cif_in));
        let mut i: usize = 0;
        while i < n
            invariant
                i <= n,
                n == self.cif_in@.len(),
                io == self.index_out,
                self.wf(),
                self@ == (CifView { deinterleaved: self@.deinterleaved, ..before }.history_updated(io as int)),
                forall|t: int| 0 <= t < i ==> #[trigger] self.temp@[t] == deinterleave_at(self@.history, io as int, t),
            decreases n - i,
        {
            let lane = i & 0x0F;
            assert(lane == i % 16) by (bit_vector) requires lane == i & 0x0Fusize;
            let lane_delay = interleave_delay(lane);
            let sum = io + lane_delay;
            let src = sum & 0x0F;
            assert(src == sum % 16) by (bit_vector) requires src == sum & 0x0Fusize;
            let v = self.cif_vector[src][i];
            self.temp.set(i, v);
            i = i + 1;
        }
        let ghost after_di = self@;
        if self.amount < 15 {
            self.amount = self.amount + 1;
            let next = io + 1;
            let wrapped = next & 0x0F;
            assert(wrapped == next % 16) by (bit_vector) requires wrapped == next & 0x0Fusize;
            self.index_out = wrapped;
            self.minor = 0;
            return None;
        }
        if self.cif_count_hi < 0 || self.cif_count_lo < 0 {
            return None;
        }
        let (adj_hi, adj_lo) = adjust_cif_counter(self.cif_count_hi, self.cif_count_lo, self.minor);
        let mut frame = DabFrame::new(self.fib_vector[io], adj_hi, adj_lo);
        if self.sync_just_lost {
            frame.sync_lost = true;
            self.sync_just_lost = false;
        }
        let next = io + 1;
        let wrapped = next & 0x0F;
        assert(wrapped == next % 16) by (bit_vector) requires wrapped == next & 0x0Fusize;
        self.index_out = wrapped;
        if self.minor < u32::MAX {
            self.minor = self.minor + 1;
        }
        Some(frame)
    }

    /// The last de-interleaved CIF.
    pub fn deinterleaved_bits(&self) -> (b: &[i16])
        ensures b@ == self@.deinterleaved,
    {
        self.temp.as_slice()
    }
}

impl CifView {
    /// The history after the collected CIF went to slot `io`.
    pub open spec fn history_updated(self, io: int) -> CifView {
        CifView { history: self.history.update(io, self.cif_in), ..self }
    }
}

/// Relation between the assembler state before (`a`) and after (`b`)
/// finishing a CIF, and the frame `f` it emits.
pub open spec fn finished(a: CifView, b: CifView, f: Option<DabFrame>) -> bool {
    let io = a.index_out;
    let h = a.history.update(io, a.cif_in);
    &&& b.cif_in == a.cif_in
    &&& b.history == h
    &&& b.fib_slots == a.fib_slots
    &&& b.deinterleaved.len() == a.cif_in.len()
    &&& forall|i: int| 0 <= i < a.cif_in.len() ==> #[trigger] b.deinterleaved[i] == deinterleave_at(h, io, i)
    &&& b.cif_count_hi == a.cif_count_hi
    &&& b.cif_count_lo == a.cif_count_lo
    &&& if a.amount < 15 {
        &&& f is None
        &&& b.amount == a.amount + 1
        &&& b.index_out == (io + 1) % 16
        &&& b.minor == 0
        &&& b.sync_just_lost == a.sync_just_lost
    } else if a.cif_count_hi < 0 || a.cif_count_lo < 0 {
        &&& f is None
        &&& b.amount == a.amount
        &&& b.index_out == io
        &&& b.minor == a.minor
        &&& b.sync_just_lost == a.sync_just_lost
    } else {
        &&& f is Some
        &&& f.unwrap().fic_data@ == a.fib_slots[io]
        &&& (f.unwrap().cif_count_hi, f.unwrap().cif_count_lo) == cif_counter_spec(a.cif_count_hi, a.cif_count_lo, a.minor)
        &&& f.unwrap().sync_lost == a.sync_just_lost
        &&& b.amount == a.amount
        &&& b.index_out == (io + 1) % 16
        &&& b.minor == (if a.minor < u32::MAX { (a.minor + 1) as u32 } else { a.minor })
        &&& !b.sync_just_lost
    }
}

// ── sub-channel decoding ─────────────────────────────────────────────────

/// Mask that the protection of a sub-channel is built with.
pub open spec fn protection_mask(d: ChannelData) -> Seq<bool> {
    if d.uep_flag { uep_mask(d.bitrate, d.protlev) } else { eep_mask(d.bitrate, d.protlev) }
}

/// Decoded bits per CIF of the protection built for a sub-channel.
pub open spec fn protection_frame_bits(d: ChannelData) -> nat {
    if d.uep_flag {
        if d.bitrate > 0 && uep_profile_choice(d.bitrate, d.protlev) is Some { (24 * d.bitrate) as nat } else { 0 }
    } else {
        if d.bitrate > 0 { (24 * d.bitrate) as nat } else { 0 }
    }
}

/// UEP or EEP protection, as the sub-channel description says.
pub fn build_protection(data: &ChannelData) -> (p: Protection)
    requires eep_params_ok(data.bitrate, data.protlev),
    ensures
        p.wf(),
        p.mask() == protection_mask(*data),
        p.frame_bits() == protection_frame_bits(*data),
{
    if data.uep_flag {
        Protection::Uep(UepProtection::new(data.bitrate, data.protlev))
    } else {
        Protection::Eep(EepProtection::new(data.bitrate, data.protlev))
    }
}

/// What building the decoding state of a channel leaves in a table slot:
/// an existing protection is kept, a missing one is built.
pub open spec fn protection_kept_or_built(before: Option<Protection>, after: Option<Protection>, d: ChannelData) -> bool {
    &&& after is Some
    &&& after.unwrap().wf()
    &&& match before {
        Some(b) => after.unwrap().mask() == b.mask() && after.unwrap().frame_bits() == b.frame_bits(),
        None => after.unwrap().mask() == protection_mask(d) && after.unwrap().frame_bits() == protection_frame_bits(d),
    }
}

pub open spec fn descrambler_kept_or_built(before: Option<Vec<u8>>, after: Option<Vec<u8>>, d: ChannelData) -> bool {
    &&& after is Some
    &&& match before {
        Some(b) => after.unwrap()@ == b@,
        None => after.unwrap()@ == prbs_seq(layout_out_size(d) as nat),
    }
}

/// Build the protection and the descrambler of channel `channel_index` if
/// it has none yet.
pub fn ensure_channel_runtime(channel_index: usize, data: &ChannelData,
    prot_table: &mut Vec<Option<Protection>>, descrambler: &mut Vec<Option<Vec<u8>>>)
    requires
        channel_index < old(prot_table)@.len(),
        channel_index < old(descrambler)@.len(),
        eep_params_ok(data.bitrate, data.protlev),
        data.start_cu >= 0, data.size >= 0, data.bitrate >= 0,
        old(prot_table)@[channel_index as int] matches Some(p) ==> p.wf(),
    ensures
        final(prot_table)@ == old(prot_table)@.update(channel_index as int, final(prot_table)@[channel_index as int]),
        final(descrambler)@ == old(descrambler)@.update(channel_index as int, final(descrambler)@[channel_index as int]),
        protection_kept_or_built(old(prot_table)@[channel_index as int], final(prot_table)@[channel_index as int], *data),
        descrambler_kept_or_built(old(descrambler)@[channel_index as int], final(descrambler)@[channel_index as int], *data),
{
    if prot_table[channel_index].is_none() {
        prot_table.set(channel_index, Some(build_protection(data)));
    }
    if descrambler[channel_index].is_none() {
        let layout = subchannel_layout(data);
        descrambler.set(channel_index, Some(build_msc_descrambler(layout.out_size)));
    }
    assert(final(prot_table)@ =~= old(prot_table)@.update(channel_index as int, prot_table@[channel_index as int]));
    assert(descrambler@ =~= old(descrambler)@.update(channel_index as int, descrambler@[channel_index as int]));
}

/// The decoded, descrambled bits of a sub-channel: `out_size` bits, the
/// Viterbi output where there is one and zero beyond, each XORed with the
/// energy-dispersal bit where the sequence reaches.
pub open spec fn descrambled_bits(input: Seq<i16>, d: ChannelData, mask: Seq<bool>, fb: nat, prbs: Seq<u8>) -> Seq<u8> {
    let start = layout_start(d);
    let slice = input.subrange(start, start + layout_size(d));
    let dec = viterbi_decode(fb, depunctured(mask, slice, mask.len()));
    Seq::new(layout_out_size(d) as nat, |i: int| {
        let b = if i < fb { dec[i] } else { 0u8 };
        if i < prbs.len() { b ^ prbs[i] } else { b }
    })
}

/// The payload bytes of a sub-channel in one CIF.
pub open spec fn subchannel_payload(input: Seq<i16>, d: ChannelData, mask: Seq<bool>, fb: nat, prbs: Seq<u8>) -> Seq<u8> {
    packed_bytes(descrambled_bits(input, d, mask, fb, prbs), (layout_out_size(d) / 8) as nat)
}

/// The channel description lies within a CIF of `len` soft bits.
pub open spec fn layout_fits(d: ChannelData, len: nat) -> bool {
    &&& d.start_cu >= 0
    &&& d.size >= 0
    &&& d.bitrate >= 0
    &&& layout_start(d) + layout_size(d) <= len
}

/// Deconvolve, descramble and pack one sub-channel of a CIF.
pub fn decode_subchannel_frame(input: &[i16], data: &ChannelData, protection: &mut Protection, descrambler: &[u8]) -> (f: SubchannelFrame)
    requires
        old(protection).wf(),
        layout_fits(*data, input@.len()),
    ensures
        final(protection).wf(),
        final(protection).mask() == old(protection).mask(),
        final(protection).frame_bits() == old(protection).frame_bits(),
        f.subchid == data.id as u8,
        f.data@ == subchannel_payload(input@, *data, old(protection).mask(), old(protection).frame_bits(), descrambler@),
{
    let layout = subchannel_layout(data);
    let end = layout.start + layout.size;
    let mut bit_buf: Vec<u8> = vec![0u8; layout.out_size];
    let slice = vstd::slice::slice_subrange(input, layout.start, end);
    let ghost fb = protection.frame_bits();
    let ghost mask = protection.mask();
    protection.deconvolve(slice, bit_buf.as_mut_slice());
    let ghost decoded = bit_buf@;
    let ghost dec = viterbi_decode(fb, depunctured(mask, slice@, mask.len()));
    assert(slice@ == input@.subrange(layout_start(*data), layout_start(*data) + layout_size(*data)));
    let n = bit_buf.len();
    assert(decoded =~= Seq::new(n as nat, |t: int| if t < fb { dec[t] } else { 0u8 }));
    let mut i: usize = 0;
    while i < n && i < descrambler.len()
        invariant
            i <= n,
            i <= descrambler@.len(),
            n == bit_buf@.len(),
            n == decoded.len(),
            decoded == Seq::new(n as nat, |t: int| if t < fb { dec[t] } else { 0u8 }),
            forall|t: int| 0 <= t < n ==> #[trigger] bit_buf@[t] ==
                if t < i { decoded[t] ^ descrambler@[t] } else { decoded[t] },
        decreases n - i,
    {
        let v = bit_buf[i] ^ descrambler[i];
        bit_buf.set(i, v);
        i = i + 1;
    }
    assert(bit_buf@ =~= descrambled_bits(input@, *data, mask, fb, descrambler@)) by {
        assert forall|t: int| 0 <= t < n implies #[trigger] bit_buf@[t] ==
            descrambled_bits(input@, *data, mask, fb, descrambler@)[t] by {
            if t < descrambler@.len() { assert(t < i); }
        }
    }
    let mut packed: Vec<u8> = vec![0u8; layout.byte_size];
    pack_bits(bit_buf.as_slice(), packed.as_mut_slice());
    assert(packed@ =~= subchannel_payload(input@, *data, mask, fb, descrambler@));
    SubchannelFrame { subchid: data.id as u8, data: arc_from_bytes(packed.as_slice()) }
}

/// Description of sub-channel `ch` in the decoder's database.
pub open spec fn channel_of(v: FicView, ch: int) -> ChannelData {
    let sc = v.fib.sub_channels[ch];
    ChannelData {
        in_use: sc.in_use, id: sc.id, start_cu: sc.start_cu, uep_flag: sc.uep_flag,
        protlev: sc.protlev, size: sc.size, bitrate: sc.bitrate,
    }
}

/// Every active sub-channel lies within a CIF of `len` soft bits.
pub open spec fn channels_fit(v: FicView, len: nat) -> bool {
    forall|ch: int| 0 <= ch < 64 && (#[trigger] channel_of(v, ch)).in_use ==> layout_fits(channel_of(v, ch), len)
}

/// (sub-channel id, payload) of each frame.
pub open spec fn frames_view(v: Seq<SubchannelFrame>) -> Seq<(u8, Seq<u8>)> {
    Seq::new(v.len(), |i: int| (v[i].subchid, v[i].data@))
}

/// The payloads of the active sub-channels among the first `n`, in
/// sub-channel order, decoded with the given protections and descramblers.
pub open spec fn cif_frames(input: Seq<i16>, v: FicView, prots: Seq<Option<Protection>>, descs: Seq<Option<Vec<u8>>>, n: nat) -> Seq<(u8, Seq<u8>)>
    decreases n,
{
    if n == 0 {
        Seq::empty()
    } else {
        let prev = cif_frames(input, v, prots, descs, (n - 1) as nat);
        let d = channel_of(v, n - 1);
        if d.in_use && prots[n - 1] is Some && descs[n - 1] is Some {
            let p = prots[n - 1].unwrap();
            prev.push((d.id as u8, subchannel_payload(input, d, p.mask(), p.frame_bits(), descs[n - 1].unwrap()@)))
        } else {
            prev
        }
    }
}

proof fn lemma_cif_frames_prefix(input: Seq<i16>, v: FicView, p1: Seq<Option<Protection>>, d1: Seq<Option<Vec<u8>>>,
    p2: Seq<Option<Protection>>, d2: Seq<Option<Vec<u8>>>, n: nat)
    requires
        forall|i: int| 0 <= i < n ==> p1[i] == p2[i] && d1[i] == d2[i],
    ensures cif_frames(input, v, p1, d1, n) == cif_frames(input, v, p2, d2, n),
    decreases n,
{
    if n > 0 { lemma_cif_frames_prefix(input, v, p1, d1, p2, d2, (n - 1) as nat); }
}

/// Deconvolve, descramble and pack every active sub-channel of a CIF,
/// building the missing protections and descramblers on the way.
pub fn process_cif_to_frames(input: &[i16], fic_handler: &FicHandler,
    prot_table: &mut Vec<Option<Protection>>, descrambler: &mut Vec<Option<Vec<u8>>>) -> (frames: Vec<SubchannelFrame>)
    requires
        fic_handler.wf(),
        old(prot_table)@.len() >= 64,
        old(descrambler)@.len() >= 64,
        forall|ch: int| 0 <= ch < old(prot_table)@.len() ==> (#[trigger] old(prot_table)@[ch] matches Some(p) ==> p.wf()),
        channels_fit(fic_handler@, input@.len()),
    ensures
        final(prot_table)@.len() == old(prot_table)@.len(),
        final(descrambler)@.len() == old(descrambler)@.len(),
        forall|ch: int| 0 <= ch < old(prot_table)@.len() ==> (#[trigger] final(prot_table)@[ch] matches Some(p) ==> p.wf()),
        forall|ch: int| 0 <= ch < 64 && (#[trigger] channel_of(fic_handler@, ch)).in_use ==> {
            &&& protection_kept_or_built(old(prot_table)@[ch], final(prot_table)@[ch], channel_of(fic_handler@, ch))
            &&& descrambler_kept_or_built(old(descrambler)@[ch], final(descrambler)@[ch], channel_of(fic_handler@, ch))
        },
        forall|ch: int| 0 <= ch < old(prot_table)@.len() && !(ch < 64 && channel_of(fic_handler@, ch).in_use)
            ==> #[trigger] final(prot_table)@[ch] == old(prot_table)@[ch],
        forall|ch: int| 0 <= ch < old(descrambler)@.len() && !(ch < 64 && channel_of(fic_handler@, ch).in_use)
            ==> #[trigger] final(descrambler)@[ch] == old(descrambler)@[ch],
        frames_view(frames@) == cif_frames(input@, fic_handler@, final(prot_table)@, final(descrambler)@, 64),
{
    let mut frames: Vec<SubchannelFrame> = Vec::new();
    let mut channel_index: usize = 0;
    while channel_index < 64
        invariant
            channel_index <= 64,
            fic_handler.wf(),
            channels_fit(fic_handler@, input@.len()),
            prot_table@.len() == old(prot_table)@.len(),
            descrambler@.len() == old(descrambler)@.len(),
            prot_table@.len() >= 64,
            descrambler@.len() >= 64,
            forall|ch: int| 0 <= ch < prot_table@.len() ==> (#[trigger] prot_table@[ch] matches Some(p) ==> p.wf()),
            forall|ch: int| 0 <= ch < channel_index && (#[trigger] channel_of(fic_handler@, ch)).in_use ==> {
                &&& protection_kept_or_built(old(prot_table)@[ch], prot_table@[ch], channel_of(fic_handler@, ch))
                &&& descrambler_kept_or_built(old(descrambler)@[ch], descrambler@[ch], channel_of(fic_handler@, ch))
            },
            forall|ch: int| 0 <= ch < prot_table@.len() && !(ch < channel_index && channel_of(fic_handler@, ch).in_use)
                ==> #[trigger] prot_table@[ch] == old(prot_table)@[ch],
            forall|ch: int| 0 <= ch < descrambler@.len() && !(ch < channel_index && channel_of(fic_handler@, ch).in_use)
                ==> #[trigger] descrambler@[ch] == old(descrambler)@[ch],
            frames_view(frames@) == cif_frames(input@, fic_handler@, prot_table@, descrambler@, channel_index as nat),
        decreases 64 - channel_index,
    {
        let c = channel_index;
        let data = fic_handler.get_channel_info(c);
        assert(data == channel_of(fic_handler@, c as int));
        let ghost p_before = prot_table@;
        let ghost d_before = descrambler@;
        if data.in_use {
            ensure_channel_runtime(c, &data, prot_table, descrambler);
            let ghost p_built = prot_table@;
            let mut slot: Option<Protection> = None;
            prot_table.set_and_swap(c, &mut slot);
            match slot {
                Some(mut p) => {
                    let dref: &Option<Vec<u8>> = &descrambler[c];
                    match dref {
                        Some(desc) => {
                            let ghost fr0 = frames@;
                            let f = decode_subchannel_frame(input, &data, &mut p, desc.as_slice());
                            frames.push(f);
                            assert(frames_view(frames@) =~= frames_view(fr0).push((f.subchid, f.data@)));
                        }
                        None => {}
                    }
                    prot_table.set(c, Some(p));
                }
                None => {}
            }
            proof {
                assert forall|ch: int| 0 <= ch < prot_table@.len() && ch != c implies prot_table@[ch] == p_built[ch] by {}
                lemma_cif_frames_prefix(input@, fic_handler@, p_before, d_before, prot_table@, descrambler@, c as nat);
            }
        } else {
            proof {
                assert(prot_table@ == p_before);
            }
        }
        channel_index = channel_index + 1;
    }
    frames
}

// ── the pipeline's decisions ─────────────────────────────────────────────

/// What `OfdmFrameSync::advance` does: the next state and the action.
pub open spec fn advance_spec(expected: i16, resyncing: bool, l: i16, blkno: i16) -> (i16, bool, SyncAction) {
    if blkno != expected {
        (2, true, if resyncing { SyncAction::Discard } else { SyncAction::SyncLost })
    } else {
        (if expected + 1 > l { 2 } else { (expected + 1) as i16 }, false,
            if resyncing { SyncAction::SyncRestored } else { SyncAction::Process })
    }
}

/// Everything the pipeline thread has to act on after one OFDM block.
pub struct BlockOutcome {
    /// How the block fitted the block sequence.
    pub action: SyncAction,
    /// Label announcements decoded from the FIC.
    pub events: Vec<FibEvent>,
    /// (good FIBs, all FIBs) after a complete FIC frame.
    pub fic_counts: Option<(i16, i16)>,
    /// A completed CIF.
    pub frame: Option<DabFrame>,
    /// An active sub-channel reaches beyond the CIF, so the CIF could not
    /// be decoded.
    pub layout_fault: bool,
}

/// The state of the pipeline thread: block sequencing, FIC and CIF
/// assembly, the FIC decoder and the per-sub-channel decoders.
pub struct PipelineCore {
    pub bits_per_block: usize,
    pub frame_sync: OfdmFrameSync,
    pub fic_assembler: FicFrameAssembler,
    pub cif_assembler: CifAssembler,
    pub fic_handler: FicHandler,
    pub prot_table: Vec<Option<Protection>>,
    pub descrambler: Vec<Option<Vec<u8>>>,
}

/// Whether every active sub-channel fits in a CIF of `len` soft bits.
pub fn channels_fit_check(fic_handler: &FicHandler, len: usize) -> (b: bool)
    requires fic_handler.wf(),
    ensures b == channels_fit(fic_handler@, len as nat),
{
    let mut ch: usize = 0;
    while ch < 64
        invariant
            ch <= 64,
            fic_handler.wf(),
            forall|c: int| 0 <= c < ch && (#[trigger] channel_of(fic_handler@, c)).in_use ==> layout_fits(channel_of(fic_handler@, c), len as nat),
        decreases 64 - ch,
    {
        let d = fic_handler.get_channel_info(ch);
        assert(d == channel_of(fic_handler@, ch as int));
        if d.in_use {
            if d.start_cu < 0 || d.size < 0 || d.bitrate < 0 {
                return false;
            }
            let start = d.start_cu as usize * CU_SIZE;
            let size = d.size as usize * CU_SIZE;
            if start + size > len {
                return false;
            }
        }
        ch = ch + 1;
    }
    true
}

impl PipelineCore {
    pub open spec fn wf(&self) -> bool {
        &&& self.bits_per_block <= 65534
        &&& self.fic_handler.wf()
        &&& self.fic_handler@.bits_per_block == self.bits_per_block
        &&& self.fic_assembler.wf()
        &&& self.fic_assembler.bits().len() == 3 * self.bits_per_block
        &&& self.cif_assembler.wf()
        &&& self.cif_assembler@.cif_in.len() == 18 * self.bits_per_block
        &&& self.prot_table@.len() == 64
        &&& self.descrambler@.len() == 64
        &&& forall|ch: int| 0 <= ch < 64 ==> (#[trigger] self.prot_table@[ch] matches Some(p) ==> p.wf())
    }

    /// A fresh pipeline for the given transmission mode.
    pub fn new(params: &DabParams) -> (c: Self)
        requires 0 <= params.k,
        ensures
            c.wf(),
            c.bits_per_block == 2 * params.k,
            c.frame_sync.expected_block == 2,
            !c.frame_sync.resyncing,
            c.frame_sync.l == params.l,
            c.fic_handler@.running,
            c.fic_handler@.fib == crate::fib::empty_fib_view(),
            c.cif_assembler@.amount == 0,
            c.cif_assembler@.cif_count_hi == -1,
            forall|ch: int| 0 <= ch < 64 ==> #[trigger] c.prot_table@[ch] is None && c.descrambler@[ch] is None,
    {
        let bits_per_block = 2 * params.get_carriers();
        let mut prot_table: Vec<Option<Protection>> = Vec::new();
        let mut descrambler: Vec<Option<Vec<u8>>> = Vec::new();
        let mut i: usize = 0;
        while i < 64
            invariant
                i <= 64,
                prot_table@.len() == i,
                descrambler@.len() == i,
                forall|ch: int| 0 <= ch < i ==> #[trigger] prot_table@[ch] is None && descrambler@[ch] is None,
            decreases 64 - i,
        {
            prot_table.push(None);
            descrambler.push(None);
            i = i + 1;
        }
        PipelineCore {
            bits_per_block,
            frame_sync: OfdmFrameSync::new(params.l),
            fic_assembler: FicFrameAssembler::new(bits_per_block),
            cif_assembler: CifAssembler::new(bits_per_block),
            fic_handler: FicHandler::new(params),
            prot_table,
            descrambler,
        }
    }

    /// Act on OFDM block `blkno`: check the block sequence, collect FIC
    /// symbols (decoding the FIC once block 4 is in) or MSC symbols
    /// (finishing a CIF once its last symbol is in); a finished CIF is
    /// decoded into sub-channel payloads while `processing` is set.
    pub fn handle_block(&mut self, blkno: i16, bdata: &[i16], processing: bool) -> (o: BlockOutcome)
        requires old(self).wf(),
        ensures
            final(self).wf(),
            final(self).bits_per_block == old(self).bits_per_block,
            ({
                let next = advance_spec(old(self).frame_sync.expected_block, old(self).frame_sync.resyncing,
                    old(self).frame_sync.l, blkno);
                let bpb = old(self).bits_per_block;
                let n = if bpb < bdata@.len() { bpb as int } else { bdata@.len() as int };
                &&& o.action == next.2
                &&& final(self).frame_sync.expected_block == next.0
                &&& final(self).frame_sync.resyncing == next.1
                &&& final(self).frame_sync.l == old(self).frame_sync.l
                &&& (o.action == SyncAction::SyncLost ==> {
                    &&& final(self).cif_assembler@ == (CifView { minor: 0, sync_just_lost: true, ..old(self).cif_assembler@ })
                    &&& final(self).fic_handler@ == old(self).fic_handler@
                    &&& o.events@.len() == 0 && o.fic_counts is None && o.frame is None && !o.layout_fault
                })
                &&& (o.action == SyncAction::Discard ==> {
                    &&& final(self).cif_assembler@ == old(self).cif_assembler@
                    &&& final(self).fic_handler@ == old(self).fic_handler@
                    &&& o.events@.len() == 0 && o.fic_counts is None && o.frame is None && !o.layout_fault
                })
                &&& ((o.action == SyncAction::Process || o.action == SyncAction::SyncRestored) && 2 <= blkno <= 4 ==> {
                    let fic0 = if blkno == 2 { FicView { errors: 0, success: 0, ..old(self).fic_handler@ } } else { old(self).fic_handler@ };
                    let bits = overwrite(old(self).fic_assembler.bits(), (blkno - 2) * bpb, bdata@, n);
                    &&& final(self).fic_assembler.bits() == bits
                    &&& o.frame is None && !o.layout_fault
                    &&& (blkno < 4 ==> {
                        &&& final(self).fic_handler@ == fic0
                        &&& final(self).cif_assembler@ == old(self).cif_assembler@
                        &&& o.events@.len() == 0 && o.fic_counts is None
                    })
                    &&& (blkno == 4 && fic0.running ==> {
                        let fr = frame_result(fic0, bits, Seq::new(3072, |i: int| 0u8), Seq::new(4, |i: int| false));
                        let f1 = view_after(fic0, fr);
                        &&& final(self).fic_handler@ == f1
                        &&& events_view(o.events@) == fr.events
                        &&& final(self).cif_assembler@ == (CifView {
                            fib_slots: Seq::new(16, |k: int|
                                if (k - old(self).cif_assembler@.index_out + 16) % 16 < 4 {
                                    fic_slot(fr.out, (k - old(self).cif_assembler@.index_out + 16) % 16)
                                } else { old(self).cif_assembler@.fib_slots[k] }),
                            cif_count_hi: f1.fib.cif_count_hi,
                            cif_count_lo: f1.fib.cif_count_lo,
                            minor: 0,
                            ..old(self).cif_assembler@
                        })
                        &&& o.fic_counts == Some((f1.success as i16, (f1.success + f1.errors) as i16))
                    })
                })
                &&& ((o.action == SyncAction::Process || o.action == SyncAction::SyncRestored) && !(2 <= blkno <= 4) ==> {
                    let idx = ((blkno - 5) as usize) % 18;
                    let stored = CifView { cif_in: overwrite(old(self).cif_assembler@.cif_in, idx * bpb, bdata@, n), ..old(self).cif_assembler@ };
                    &&& final(self).fic_handler@ == old(self).fic_handler@
                    &&& o.events@.len() == 0 && o.fic_counts is None
                    &&& (idx != 17 ==> final(self).cif_assembler@ == stored && o.frame is None && !o.layout_fault)
                    &&& (idx == 17 ==> {
                        &&& finished(stored, final(self).cif_assembler@, o.frame)
                        &&& o.layout_fault == (processing && o.frame is Some
                            && !channels_fit(old(self).fic_handler@, (18 * bpb) as nat))
                        &&& (o.frame matches Some(f) ==> subchannel_entries(f.subchannels) ==
                            if processing && !o.layout_fault {
                                cif_frames(final(self).cif_assembler@.deinterleaved, old(self).fic_handler@,
                                    final(self).prot_table@, final(self).descrambler@, 64)
                            } else {
                                Seq::<(u8, Seq<u8>)>::empty()
                            })
                    })
                })
            }),
    {
        let action = self.frame_sync.advance(blkno);
        let events: Vec<FibEvent> = Vec::new();
        match action {
            SyncAction::SyncLost => {
                self.cif_assembler.note_sync_loss();
                return BlockOutcome { action, events, fic_counts: None, frame: None, layout_fault: false };
            }
            SyncAction::Discard => {
                return BlockOutcome { action, events, fic_counts: None, frame: None, layout_fault: false };
            }
            _ => {}
        }
        if 2 <= blkno && blkno <= 4 {
            let (events, fic_counts) = self.handle_fic_block(blkno, bdata);
            return BlockOutcome { action, events, fic_counts, frame: None, layout_fault: false };
        }
        if !self.cif_assembler.store_msc_block(blkno, bdata, self.bits_per_block) {
            return BlockOutcome { action, events, fic_counts: None, frame: None, layout_fault: false };
        }
        let (frame, layout_fault) = self.emit_completed_cif(processing);
        BlockOutcome { action, events, fic_counts: None, frame, layout_fault }
    }

    /// FIC symbol `blkno` (2..=4): block 2 starts a new quality window;
    /// block 4 completes the FIC of the frame, which is decoded, its slots
    /// recorded for the next four CIFs and its CIF counter taken over.
    fn handle_fic_block(&mut self, blkno: i16, bdata: &[i16]) -> (r: (Vec<FibEvent>, Option<(i16, i16)>))
        requires old(self).wf(), 2 <= blkno <= 4,
        ensures
            final(self).wf(),
            final(self).bits_per_block == old(self).bits_per_block,
            final(self).frame_sync == old(self).frame_sync,
            ({
                let bpb = old(self).bits_per_block;
                let n = if bpb < bdata@.len() { bpb as int } else { bdata@.len() as int };
                let fic0 = if blkno == 2 { FicView { errors: 0, success: 0, ..old(self).fic_handler@ } } else { old(self).fic_handler@ };
                let bits = overwrite(old(self).fic_assembler.bits(), (blkno - 2) * bpb, bdata@, n);
                &&& final(self).fic_assembler.bits() == bits
                &&& (blkno < 4 ==> {
                    &&& final(self).fic_handler@ == fic0
                    &&& final(self).cif_assembler@ == old(self).cif_assembler@
                    &&& r.0@.len() == 0 && r.1 is None
                })
                &&& (blkno == 4 && fic0.running ==> {
                    let fr = frame_result(fic0, bits, Seq::new(3072, |i: int| 0u8), Seq::new(4, |i: int| false));
                    let f1 = view_after(fic0, fr);
                    &&& final(self).fic_handler@ == f1
                    &&& events_view(r.0@) == fr.events
                    &&& final(self).cif_assembler@ == (CifView {
                        fib_slots: Seq::new(16, |k: int|
                            if (k - old(self).cif_assembler@.index_out + 16) % 16 < 4 {
                                fic_slot(fr.out, (k - old(self).cif_assembler@.index_out + 16) % 16)
                            } else { old(self).cif_assembler@.fib_slots[k] }),
                        cif_count_hi: f1.fib.cif_count_hi,
                        cif_count_lo: f1.fib.cif_count_lo,
                        minor: 0,
                        ..old(self).cif_assembler@
                    })
                    &&& r.1 == Some((f1.success as i16, (f1.success + f1.errors) as i16))
                })
            }),
    {
        let bpb = self.bits_per_block;
        if blkno == 2 {
            self.fic_handler.reset_quality_counters();
        }
        assert((blkno - 2) * bpb + (if bpb < bdata@.len() { bpb as int } else { bdata@.len() as int }) <= 3 * bpb)
            by (nonlinear_arith) requires 2 <= blkno <= 4;
        let complete = self.fic_assembler.store_block(blkno, bdata, bpb);
        let mut events: Vec<FibEvent> = Vec::new();
        let mut fic_counts: Option<(i16, i16)> = None;
        if complete {
            let ghost cif0 = self.cif_assembler@;
            let (slots, evs) = self.fic_assembler.decode_slots(&mut self.fic_handler);
            events = evs;
            self.cif_assembler.record_fic_slots(slots);
            let ghost cif1 = self.cif_assembler@;
            let (hi, lo) = self.fic_handler.get_cif_count();
            self.cif_assembler.update_cif_counter(hi, lo);
            fic_counts = Some(self.fic_handler.get_fic_counts());
            proof {
                let fic0 = if blkno == 2 { FicView { errors: 0, success: 0, ..old(self).fic_handler@ } } else { old(self).fic_handler@ };
                if fic0.running {
                    let fr = frame_result(fic0, self.fic_assembler.bits(), Seq::new(3072, |i: int| 0u8), Seq::new(4, |i: int| false));
                    assert(cif0 == old(self).cif_assembler@);
                    assert forall|k: int| 0 <= k < 16 implies #[trigger] self.cif_assembler@.fib_slots[k] ==
                        (if (k - cif0.index_out + 16) % 16 < 4 { fic_slot(fr.out, (k - cif0.index_out + 16) % 16) } else { cif0.fib_slots[k] }) by {
                        if (k - cif0.index_out + 16) % 16 < 4 {
                            let sidx = (k - cif0.index_out + 16) % 16;
                            assert(slots[sidx]@ == fic_slot(fr.out, sidx));
                        }
                    }
                    assert(self.cif_assembler@.fib_slots =~= Seq::new(16, |k: int|
                        if (k - cif0.index_out + 16) % 16 < 4 { fic_slot(fr.out, (k - cif0.index_out + 16) % 16) } else { cif0.fib_slots[k] }));
                }
            }
        }
        (events, fic_counts)
    }

    /// The last MSC symbol of a CIF is in: finish the CIF and, while
    /// `processing`, decode its sub-channels into the emitted frame.
    fn emit_completed_cif(&mut self, processing: bool) -> (r: (Option<DabFrame>, bool))
        requires old(self).wf(),
        ensures
            final(self).wf(),
            final(self).bits_per_block == old(self).bits_per_block,
            final(self).frame_sync == old(self).frame_sync,
            final(self).fic_handler@ == old(self).fic_handler@,
            final(self).fic_assembler.bits() == old(self).fic_assembler.bits(),
            finished(old(self).cif_assembler@, final(self).cif_assembler@, r.0),
            r.1 == (processing && r.0 is Some && !channels_fit(old(self).fic_handler@, (18 * old(self).bits_per_block) as nat)),
            r.0 matches Some(f) ==> subchannel_entries(f.subchannels) ==
                if processing && !r.1 {
                    cif_frames(final(self).cif_assembler@.deinterleaved, old(self).fic_handler@,
                        final(self).prot_table@, final(self).descrambler@, 64)
                } else {
                    Seq::<(u8, Seq<u8>)>::empty()
                },
    {
        let finished_frame = self.cif_assembler.finish_loaded_cif();
        match finished_frame {
            None => (None, false),
            Some(mut frame) => {
                if processing {
                    if channels_fit_check(&self.fic_handler, self.cif_assembler.deinterleaved_bits().len()) {
                        let subs = process_cif_to_frames(self.cif_assembler.deinterleaved_bits(), &self.fic_handler,
                            &mut self.prot_table, &mut self.descrambler);
                        attach_subchannels(&mut frame, subs);
                        (Some(frame), false)
                    } else {
                        (Some(frame), true)
                    }
                } else {
                    (Some(frame), false)
                }
            }
        }
    }
}

/// Move the decoded sub-channels, in order, into an empty frame.
fn attach_subchannels(frame: &mut DabFrame, subs: Vec<SubchannelFrame>)
    requires subchannel_entries(old(frame).subchannels) == Seq::<(u8, Seq<u8>)>::empty(),
    ensures
        subchannel_entries(final(frame).subchannels) == frames_view(subs@),
        final(frame).fic_data == old(frame).fic_data,
        final(frame).cif_count_hi == old(frame).cif_count_hi,
        final(frame).cif_count_lo == old(frame).cif_count_lo,
        final(frame).sync_lost == old(frame).sync_lost,
{
    let ghost all = frames_view(subs@);
    let total = subs.len();
    let mut subs = subs;
    let mut k: usize = 0;
    while subs.len() > 0
        invariant
            k <= all.len(),
            total == all.len(),
            subs@.len() + k == all.len(),
            frames_view(subs@) == all.subrange(k as int, all.len() as int),
            subchannel_entries(frame.subchannels) == all.subrange(0, k as int),
            frame.fic_data == old(frame).fic_data,
            frame.cif_count_hi == old(frame).cif_count_hi,
            frame.cif_count_lo == old(frame).cif_count_lo,
            frame.sync_lost == old(frame).sync_lost,
        decreases subs@.len(),
    {
        let ghost before = subs@;
        let f = subs.remove(0);
        assert(all[k as int] == (f.subchid, f.data@)) by {
            assert(frames_view(before)[0] == all.subrange(k as int, all.len() as int)[0]);
        }
        frame.push_subchannel(f.subchid, f.data);
        assert(frames_view(subs@) =~= all.subrange(k + 1, all.len() as int)) by {
            assert forall|t: int| 0 <= t < subs@.len() implies #[trigger] frames_view(subs@)[t] == all.subrange(k + 1, all.len() as int)[t] by {
                assert(subs@[t] == before[t + 1]);
                assert(frames_view(before)[t + 1] == all.subrange(k as int, all.len() as int)[t + 1]);
            }
        }
        assert(all.subrange(0, k + 1) =~= all.subrange(0, k as int).push(all[k as int]));
        k = k + 1;
    }
    assert(all.subrange(0, k as int) =~= all);
}

// ── laws ─────────────────────────────────────────────────────────────────

/// A loss of the block sequence is reported once: while waiting for block 2
/// after a loss, no block reports another loss.
pub proof fn lemma_sync_loss_reported_once(expected: i16, l: i16, blkno: i16)
    ensures advance_spec(expected, true, l, blkno).2 != SyncAction::SyncLost,
{
}

/// Blocks arriving in sequence are processed, and the expectation walks
/// 2, 3, …, L and back to 2.
pub proof fn lemma_in_sequence_blocks_processed(expected: i16, l: i16)
    requires 2 <= expected <= l,
    ensures
        advance_spec(expected, false, l, expected).2 == SyncAction::Process,
        advance_spec(expected, false, l, expected).0 == (if expected == l { 2 } else { expected + 1 }),
{
}

/// Lanes with delay 0 (every sixteenth sample, starting at 0) of a finished
/// CIF carry the CIF just loaded: the history slot is written before it is
/// read.
pub proof fn lemma_zero_delay_lanes_are_current(a: CifView, i: int)
    requires 0 <= a.index_out < 16, a.history.len() == 16, 0 <= i < a.cif_in.len(), i % 16 == 0,
    ensures deinterleave_at(a.history.update(a.index_out, a.cif_in), a.index_out, i) == a.cif_in[i],
{
}

/// Every other lane reads an older CIF: the slot `delay` positions after the
/// newest, never the CIF just loaded.
pub proof fn lemma_delayed_lanes_read_history(a: CifView, i: int)
    requires 0 <= a.index_out < 16, a.history.len() == 16, 0 <= i < a.cif_in.len(), i % 16 != 0,
    ensures
        deinterleave_at(a.history.update(a.index_out, a.cif_in), a.index_out, i)
            == a.history[(a.index_out + delay(i % 16)) % 16][i],
        (a.index_out + delay(i % 16)) % 16 != a.index_out,
{
    crate::interleave::lemma_delays_distinct(i % 16, 0);
}

/// The adjusted CIF counter of a frame emitted after a valid FIC counter is
/// itself valid: high part below 20, low part below 250.
pub proof fn lemma_cif_counter_in_range(hi: i16, lo: i16, minor: u32)
    requires hi >= 0, lo >= 0, minor <= i32::MAX,
    ensures cif_counter_spec(hi, lo, minor).0 < 20, cif_counter_spec(hi, lo, minor).1 < 250,
{
}

} // verus!
