//! Fast Information Channel decoding (ETSI EN 300 401 §11.1 and §5.2):
//! the three FIC symbols of a frame are cut into FIC codewords of 2304 soft
//! bits, each depunctured, Viterbi-decoded, descrambled and split into three
//! FIBs whose CRC decides whether they reach the ensemble database.

use vstd::prelude::*;
use crate::bits::{crc_ok, check_crc_bits, ChannelData};
use crate::dab_params::DabParams;
use crate::fib::{FibProcessor, FibView, FibEvent, FibEventView, events_view, fib_spec, lemma_events_view_concat};
use crate::prbs::{prbs_bit, prbs_seq, prbs_sequence};
use crate::protection::{eep_params_ok, puncture_mask, depunctured, depuncture_soft_bits, build_mask,
    lemma_two_run_mask_count, lemma_two_run_mask_period};
use crate::counting::{count_where, count_true, flags};
use crate::viterbi::{ViterbiSpiral, viterbi_decode};

verus! {

/// Depunctured length of one FIC codeword: 24 groups of 128 bits plus 24 tail bits.
pub const FIC_VITERBI_BUF_SIZE: usize = 3096;
/// Decoded bits per FIC codeword (three FIBs).
pub const FIC_BITS_OUT_SIZE: usize = 768;
/// Received soft bits per FIC codeword.
pub const FIC_CODEWORD_BITS: usize = 2304;
/// FIC codewords per frame in Mode I.
pub const FICS_PER_FRAME: usize = 4;
/// FIBs per FIC codeword.
pub const FIBS_PER_FIC: usize = 3;
/// Upper bound of the smoothed decode ratio (in tenths).
pub const FIC_RATIO_MAX: i16 = 10;

// ── decode ratio ─────────────────────────────────────────────────────────

/// One leaky step of the decode ratio: up on a good FIB, down on a bad one,
/// kept within 0..=10.
pub open spec fn ratio_step(c: int, ok: bool) -> int {
    let n = if ok { c + 1 } else { c - 1 };
    if n < 0 { 0 } else if n > 10 { 10 } else { n }
}

pub open spec fn ratio_ups(c: int, n: nat) -> int
    decreases n,
{
    if n == 0 { c } else { ratio_step(ratio_ups(c, (n - 1) as nat), true) }
}

pub open spec fn ratio_downs(c: int, n: nat) -> int
    decreases n,
{
    if n == 0 { c } else { ratio_step(ratio_downs(c, (n - 1) as nat), false) }
}

/// The ratio after `success` good FIBs (none when negative) and then
/// `total - success` bad ones (that difference saturating at `i16::MAX`).
pub open spec fn ratio_update(c: int, success: int, total: int) -> int {
    let ups: int = if success > 0 { success } else { 0 };
    let downs: int = if total - success > 32767 { 32767 } else { total - success };
    ratio_downs(ratio_ups(c, ups as nat), downs as nat)
}

/// One step of the smoothed FIC decode ratio.
pub fn update_decode_ratio_step(current_steps: i16, crc_ok: bool) -> (r: i16)
    requires i16::MIN < current_steps < i16::MAX,
    ensures r == ratio_step(current_steps as int, crc_ok),
{
    let delta: i16 = if crc_ok { 1 } else { -1 };
    let n = current_steps + delta;
    if n < 0 { 0 } else if n > FIC_RATIO_MAX { FIC_RATIO_MAX } else { n }
}

/// The smoothed ratio after a frame with `success` good FIBs out of `total`.
pub fn update_decode_ratio_steps(current_steps: i16, success: i16, total: i16) -> (r: i16)
    requires
        i16::MIN < current_steps < i16::MAX,
        success <= total,
    ensures r == ratio_update(current_steps as int, success as int, total as int),
{
    let ups: i16 = if success > 0 { success } else { 0 };
    let mut cur = current_steps;
    let mut i: i16 = 0;
    while i < ups
        invariant
            0 <= i <= ups,
            ups == (if success > 0 { success } else { 0 }),
            cur == ratio_ups(current_steps as int, i as nat),
            i == 0 ==> cur == current_steps,
            i > 0 ==> 0 <= cur <= 10,
            i16::MIN < current_steps < i16::MAX,
        decreases ups - i,
    {
        cur = update_decode_ratio_step(cur, true);
        i = i + 1;
    }
    let diff: i32 = total as i32 - success as i32;
    let downs: i16 = if diff > 32767 { 32767 } else { diff as i16 };
    let mut j: i16 = 0;
    while j < downs
        invariant
            0 <= j <= downs,
            downs == (if total - success > 32767 { 32767 } else { total - success }),
            cur == ratio_downs(ratio_ups(current_steps as int, ups as nat), j as nat),
            ups == 0 && j == 0 ==> cur == current_steps,
            ups > 0 || j > 0 ==> 0 <= cur <= 10,
            i16::MIN < current_steps < i16::MAX,
        decreases downs - j,
    {
        cur = update_decode_ratio_step(cur, false);
        j = j + 1;
    }
    cur
}

// ── one FIC codeword ─────────────────────────────────────────────────────

/// Puncturing of a FIC codeword: 21 groups with PI_16, 3 with PI_15, then
/// the tail with PI_X.
pub open spec fn fic_mask() -> Seq<bool> {
    puncture_mask(3096, 21, 15, 3, 14, 0, 0, 0, 0)
}

/// The FIC depuncturing mask places every received soft bit: of its 3096
/// positions it marks exactly the 2304 bits of a FIC codeword, 24 of every
/// 32 over the first 2688 positions (PI_16), 23 of every 32 over the next
/// 384 (PI_15), and 12 of the 24 tail positions.
pub proof fn lemma_fic_mask_places_codeword()
    ensures
        fic_mask().len() == 3096,
        count_true(fic_mask()) == FIC_CODEWORD_BITS,
        forall|k: int| 0 <= k < 84 ==> #[trigger] count_where(flags(fic_mask()), 32 * k, 32 * k + 32) == 24,
        forall|k: int| 84 <= k < 96 ==> #[trigger] count_where(flags(fic_mask()), 32 * k, 32 * k + 32) == 23,
{
    assert(128 * (21 + 3) + 24 == 3096);
    lemma_two_run_mask_count(21, 15, 3, 14);
    assert forall|k: int| 0 <= k < 96 implies #[trigger] count_where(flags(fic_mask()), 32 * k, 32 * k + 32)
        == if k < 84 { 24int } else { 23int } by {
        lemma_two_run_mask_period(21, 15, 3, 14, k);
    }
}

/// The 768 descrambled bits decoded from one FIC codeword of soft bits.
#[verifier::opaque]
pub open spec fn fic_bits(chunk: Seq<i16>) -> Seq<u8> {
    let dec = viterbi_decode(768, depunctured(fic_mask(), chunk, 3096));
    Seq::new(768, |i: int| dec[i] ^ prbs_bit(i as nat))
}

/// FIB number `k` (256 bits) of a decoded codeword.
pub open spec fn fib_slice(bits: Seq<u8>, k: int) -> Seq<u8> {
    bits.subrange(256 * k, 256 * k + 256)
}

pub open spec fn fib_crc_ok(bits: Seq<u8>, k: int) -> bool {
    crc_ok(fib_slice(bits, k), 256)
}

/// How many of the first `k` FIBs of a codeword pass the CRC.
pub open spec fn fibs_ok_count(bits: Seq<u8>, k: nat) -> nat
    decreases k,
{
    if k == 0 { 0 } else { fibs_ok_count(bits, (k - 1) as nat) + if fib_crc_ok(bits, k - 1) { 1nat } else { 0 } }
}

/// The database and the label events after the first `k` FIBs of a
/// codeword; FIBs that fail the CRC are skipped.
#[verifier::opaque]
pub open spec fn fibs_apply(v: FibView, bits: Seq<u8>, k: nat) -> (FibView, Seq<FibEventView>)
    decreases k,
{
    if k == 0 {
        (v, Seq::empty())
    } else {
        let prev = fibs_apply(v, bits, (k - 1) as nat);
        if fib_crc_ok(bits, k - 1) {
            let r = fib_spec(prev.0, fib_slice(bits, k - 1), 0);
            (r.0, prev.1 + r.1)
        } else {
            prev
        }
    }
}

/// A codeword is valid when all three of its FIBs pass the CRC.
pub open spec fn fic_chunk_valid(bits: Seq<u8>) -> bool {
    fib_crc_ok(bits, 0) && fib_crc_ok(bits, 1) && fib_crc_ok(bits, 2)
}

/// `a + n`, saturated at `i32::MAX`.
pub open spec fn sat_add(a: i32, n: nat) -> i32 {
    if a + n > i32::MAX { i32::MAX } else { (a + n) as i32 }
}

/// `s` with `b` written from position `off`, when `b` fits entirely.
pub open spec fn splice<T>(s: Seq<T>, off: int, b: Seq<T>) -> Seq<T> {
    if 0 <= off && off + b.len() <= s.len() {
        Seq::new(s.len(), |i: int| if off <= i < off + b.len() { b[i - off] } else { s[i] })
    } else {
        s
    }
}

/// Everything that decoding the FIC codewords of a frame changes.
pub ghost struct FicRun {
    pub fib: FibView,
    pub errors: i32,
    pub success: i32,
    pub steps: i16,
    pub frame_bits: Seq<u8>,
    pub frame_valid: Seq<bool>,
    pub out: Seq<u8>,
    pub valid: Seq<bool>,
    pub events: Seq<FibEventView>,
}

/// Decoding codeword `f` of a frame, except for the validity flags.
#[verifier::opaque]
pub open spec fn fic_step_core(r: FicRun, chunk: Seq<i16>, f: int) -> FicRun {
    let bits = fic_bits(chunk);
    let applied = fibs_apply(r.fib, bits, 3);
    let ok = fibs_ok_count(bits, 3);
    FicRun {
        fib: applied.0,
        errors: sat_add(r.errors, (3 - ok) as nat),
        success: sat_add(r.success, ok),
        steps: ratio_update(r.steps as int, ok as int, 3) as i16,
        frame_bits: splice(r.frame_bits, f * 768, bits),
        frame_valid: r.frame_valid,
        out: splice(r.out, f * 768, bits),
        valid: r.valid,
        events: r.events + applied.1,
    }
}

/// Decoding codeword `f` of a frame.
#[verifier::opaque]
pub open spec fn fic_step(r: FicRun, chunk: Seq<i16>, f: int) -> FicRun {
    let c = fic_step_core(r, chunk, f);
    let ok = fic_chunk_valid(fic_bits(chunk));
    FicRun {
        frame_valid: if 0 <= f < c.frame_valid.len() { c.frame_valid.update(f, ok) } else { c.frame_valid },
        valid: if 0 <= f < c.valid.len() { c.valid.update(f, ok) } else { c.valid },
        ..c
    }
}

/// Decoding the first `n` codewords of the frame input `fr`.
pub open spec fn fic_run(r: FicRun, fr: Seq<i16>, n: nat) -> FicRun
    decreases n,
{
    if n == 0 {
        r
    } else {
        fic_step(fic_run(r, fr, (n - 1) as nat), fr.subrange((n - 1) * 2304, (n * 2304) as int), n - 1)
    }
}

// ── the handler ──────────────────────────────────────────────────────────

/// State of the FIC decoder that callers can observe.
pub ghost struct FicView {
    pub fib: FibView,
    pub running: bool,
    pub bits_per_block: nat,
    pub errors: i32,
    pub success: i32,
    pub steps: i16,
    pub frame_bits: Seq<u8>,
    pub frame_valid: Seq<bool>,
}

/// Decoder of the FIC of one DAB ensemble.
pub struct FicHandler {
    bits_per_block: usize,
    ofdm_input: Vec<i16>,
    ofdm_input_index: usize,
    fic_decode_index: usize,
    puncture_table: Vec<bool>,
    prbs: Vec<u8>,
    viterbi: ViterbiSpiral,
    viterbi_block: Vec<i16>,
    bit_buffer_out: Vec<u8>,
    fib_bits_frame: Vec<u8>,
    fic_valid: Vec<bool>,
    is_running: bool,
    fib_processor: FibProcessor,
    fic_errors: i32,
    fic_success: i32,
    fic_decode_ratio_steps: i16,
}

impl View for FicHandler {
    type V = FicView;

    closed spec fn view(&self) -> FicView {
        FicView {
            fib: self.fib_processor@,
            running: self.is_running,
            bits_per_block: self.bits_per_block as nat,
            errors: self.fic_errors,
            success: self.fic_success,
            steps: self.fic_decode_ratio_steps,
            frame_bits: self.fib_bits_frame@,
            frame_valid: self.fic_valid@,
        }
    }
}

/// The run state that a frame starts from.
pub open spec fn frame_start(h: FicView, out: Seq<u8>, valid: Seq<bool>) -> FicRun {
    FicRun {
        fib: h.fib,
        errors: h.errors,
        success: h.success,
        steps: h.steps,
        frame_bits: Seq::new(3072, |i: int| 0u8),
        frame_valid: Seq::new(4, |i: int| false),
        out,
        valid,
        events: Seq::empty(),
    }
}

/// Number of whole FIC codewords in the three FIC symbols of a frame.
pub open spec fn fics_in_frame(bits_per_block: nat) -> nat {
    (3 * bits_per_block) / 2304
}

/// Decoding the three FIC symbols at the start of `data` from handler state `h`.
pub open spec fn frame_result(h: FicView, data: Seq<i16>, out: Seq<u8>, valid: Seq<bool>) -> FicRun {
    fic_run(frame_start(h, out, valid), data.subrange(0, (3 * h.bits_per_block) as int), fics_in_frame(h.bits_per_block))
}

/// The handler state after a frame decoded into `r`.
pub open spec fn view_after(h: FicView, r: FicRun) -> FicView {
    FicView {
        fib: r.fib,
        errors: r.errors,
        success: r.success,
        steps: r.steps,
        frame_bits: r.frame_bits,
        frame_valid: r.frame_valid,
        ..h
    }
}

impl FicHandler {
    /// Buffers have their fixed sizes, the tables hold the FIC puncturing
    /// and the energy-dispersal sequence, counters are non-negative and
    /// the decode ratio lies in 0..=10.
    pub closed spec fn wf(&self) -> bool {
        &&& self.bits_per_block <= 65534
        &&& self.ofdm_input@.len() == 2304
        &&& self.ofdm_input_index <= 2304
        &&& self.fic_decode_index <= 256
        &&& self.puncture_table@ == fic_mask()
        &&& self.prbs@ == prbs_seq(768)
        &&& self.viterbi.wf()
        &&& self.viterbi.spec_frame_bits() == 768
        &&& self.viterbi_block@.len() == 3096
        &&& self.bit_buffer_out@.len() == 768
        &&& self.fib_bits_frame@.len() == 3072
        &&& self.fic_valid@.len() == 4
        &&& self.fib_processor.wf()
        &&& self.fic_errors >= 0
        &&& self.fic_success >= 0
        &&& 0 <= self.fic_decode_ratio_steps <= 10
    }

    /// The run state of the handler together with the caller's buffers.
    closed spec fn run_of(&self, out: Seq<u8>, valid: Seq<bool>, events: Seq<FibEventView>) -> FicRun {
        FicRun {
            fib: self.fib_processor@,
            errors: self.fic_errors,
            success: self.fic_success,
            steps: self.fic_decode_ratio_steps,
            frame_bits: self.fib_bits_frame@,
            frame_valid: self.fic_valid@,
            out,
            valid,
            events,
        }
    }

    /// A running decoder for the FIC symbols of the given mode, with an
    /// empty ensemble database and zeroed counters.
    pub fn new(params: &DabParams) -> (h: Self)
        requires 0 <= params.k,
        ensures
            h.wf(),
            h@.running,
            h@.bits_per_block == 2 * params.k,
            h@.errors == 0,
            h@.success == 0,
            h@.steps == 0,
            h@.frame_bits == Seq::new(3072, |i: int| 0u8),
            h@.frame_valid == Seq::new(4, |i: int| false),
            h@.fib == crate::fib::empty_fib_view(),
    {
        let bits_per_block = 2 * params.k as usize;
        let prbs = prbs_sequence(FIC_BITS_OUT_SIZE);
        let puncture_table = build_mask(FIC_VITERBI_BUF_SIZE, 21, 15, 3, 14, 0, 0, 0, 0);
        let h = FicHandler {
            bits_per_block,
            ofdm_input: vec![0i16; FIC_CODEWORD_BITS],
            ofdm_input_index: 0,
            fic_decode_index: 0,
            puncture_table,
            prbs,
            viterbi: ViterbiSpiral::new(FIC_BITS_OUT_SIZE),
            viterbi_block: vec![0i16; FIC_VITERBI_BUF_SIZE],
            bit_buffer_out: vec![0u8; FIC_BITS_OUT_SIZE],
            fib_bits_frame: vec![0u8; FIC_BITS_OUT_SIZE * FICS_PER_FRAME],
            fic_valid: vec![false; FICS_PER_FRAME],
            is_running: true,
            fib_processor: FibProcessor::new(),
            fic_errors: 0,
            fic_success: 0,
            fic_decode_ratio_steps: 0,
        };
        assert(h@.frame_bits =~= Seq::new(3072, |i: int| 0u8));
        assert(h@.frame_valid =~= Seq::new(4, |i: int| false));
        h
    }

    fn reset_frame_collection(&mut self)
        requires old(self).wf(),
        ensures
            final(self).wf(),
            final(self).ofdm_input_index == 0,
            final(self).fic_decode_index == 0,
            final(self)@ == (FicView {
                frame_bits: Seq::new(3072, |i: int| 0u8),
                frame_valid: Seq::new(4, |i: int| false),
                ..old(self)@
            }),
    {
        self.ofdm_input_index = 0;
        self.fic_decode_index = 0;
        let mut i: usize = 0;
        while i < FICS_PER_FRAME
            invariant
                i <= 4,
                self.wf(),
                self.ofdm_input_index == 0,
                self.fic_decode_index == 0,
                self@ == (FicView { frame_valid: self@.frame_valid, ..old(self)@ }),
                forall|t: int| 0 <= t < i ==> #[trigger] self.fic_valid@[t] == false,
            decreases 4 - i,
        {
            self.fic_valid.set(i, false);
            i = i + 1;
        }
        assert(self.fic_valid@ =~= Seq::new(4, |i: int| false));
        let mut j: usize = 0;
        while j < FIC_BITS_OUT_SIZE * FICS_PER_FRAME
            invariant
                j <= 3072,
                self.wf(),
                self.ofdm_input_index == 0,
                self.fic_decode_index == 0,
                self@ == (FicView { frame_valid: self@.frame_valid, frame_bits: self@.frame_bits, ..old(self)@ }),
                self.fic_valid@ =~= Seq::new(4, |i: int| false),
                forall|t: int| 0 <= t < j ==> #[trigger] self.fib_bits_frame@[t] == 0u8,
            decreases 3072 - j,
        {
            self.fib_bits_frame.set(j, 0);
            j = j + 1;
        }
        assert(self.fib_bits_frame@ =~= Seq::new(3072, |i: int| 0u8));
    }

    fn depuncture_fic_bits(&mut self)
        requires old(self).wf(),
        ensures
            final(self).wf(),
            final(self).viterbi_block@ == depunctured(fic_mask(), old(self).ofdm_input@, 3096),
            final(self).ofdm_input@ == old(self).ofdm_input@,
            final(self).bit_buffer_out@ == old(self).bit_buffer_out@,
            final(self).ofdm_input_index == old(self).ofdm_input_index,
            final(self).fic_decode_index == old(self).fic_decode_index,
            final(self)@ == old(self)@,
    {
        let mut block: Vec<i16> = Vec::new();
        std::mem::swap(&mut block, &mut self.viterbi_block);
        let _ = depuncture_soft_bits(self.puncture_table.as_slice(), self.ofdm_input.as_slice(), block.as_mut_slice());
        self.viterbi_block = block;
    }

    fn descramble_fic_bits(&mut self)
        requires old(self).wf(),
        ensures
            final(self).wf(),
            final(self).bit_buffer_out@ == Seq::new(768, |i: int| old(self).bit_buffer_out@[i] ^ prbs_bit(i as nat)),
            final(self).ofdm_input@ == old(self).ofdm_input@,
            final(self).ofdm_input_index == old(self).ofdm_input_index,
            final(self).fic_decode_index == old(self).fic_decode_index,
            final(self)@ == old(self)@,
    {
        let mut i: usize = 0;
        while i < FIC_BITS_OUT_SIZE
            invariant
                i <= 768,
                self.wf(),
                self.ofdm_input@ == old(self).ofdm_input@,
                self.ofdm_input_index == old(self).ofdm_input_index,
                self.fic_decode_index == old(self).fic_decode_index,
                self@ == old(self)@,
                forall|t: int| 0 <= t < i ==> #[trigger] self.bit_buffer_out@[t] == old(self).bit_buffer_out@[t] ^ prbs_bit(t as nat),
                forall|t: int| i <= t < 768 ==> #[trigger] self.bit_buffer_out@[t] == old(self).bit_buffer_out@[t],
            decreases 768 - i,
        {
            let v = self.bit_buffer_out[i] ^ self.prbs[i];
            self.bit_buffer_out.set(i, v);
            i = i + 1;
        }
        assert(self.bit_buffer_out@ =~= Seq::new(768, |i: int| old(self).bit_buffer_out@[i] ^ prbs_bit(i as nat)));
    }
}


/// The frame bits seen so far while collecting the soft bits of a frame:
/// `t` soft bits of `fr` consumed, the whole codewords among them decoded.
pub open spec fn collected(h: FicView, input: Seq<i16>, input_index: nat, decode_index: nat,
    fr: Seq<i16>, t: nat, r0: FicRun, run: FicRun) -> bool
{
    &&& input_index == t % 2304
    &&& decode_index == t / 2304
    &&& forall|k: int| 0 <= k < input_index ==> #[trigger] input[k] == fr[(t / 2304) * 2304 + k]
    &&& run == fic_run(r0, fr, t / 2304)
}

proof fn lemma_ratio_ups_range(c: int, n: nat)
    requires 0 <= c <= 10,
    ensures 0 <= ratio_ups(c, n) <= 10,
    decreases n,
{
    if n > 0 { lemma_ratio_ups_range(c, (n - 1) as nat); }
}

proof fn lemma_ratio_downs_range(c: int, n: nat)
    requires 0 <= c <= 10,
    ensures 0 <= ratio_downs(c, n) <= 10,
    decreases n,
{
    if n > 0 { lemma_ratio_downs_range(c, (n - 1) as nat); }
}

/// The smoothed decode ratio never leaves 0..=10.
pub proof fn lemma_ratio_update_range(c: int, success: int, total: int)
    requires 0 <= c <= 10, success <= total,
    ensures 0 <= ratio_update(c, success, total) <= 10,
{
    let ups: int = if success > 0 { success } else { 0 };
    let downs: int = if total - success > 32767 { 32767 } else { total - success };
    lemma_ratio_ups_range(c, ups as nat);
    lemma_ratio_downs_range(ratio_ups(c, ups as nat), downs as nat);
}

proof fn lemma_ok_count_bound(bits: Seq<u8>, k: nat)
    ensures fibs_ok_count(bits, k) <= k,
    decreases k,
{
    if k > 0 { lemma_ok_count_bound(bits, (k - 1) as nat); }
}

/// Copy `src` into `dst` from position `offset` when it fits entirely.
fn copy_codeword(dst: &mut [u8], offset: usize, src: &[u8])
    ensures final(dst)@ == splice(old(dst)@, offset as int, src@),
{
    if offset <= dst.len() && src.len() <= dst.len() - offset {
        let n = dst.len();
        let mut i: usize = 0;
        while i < src.len()
            invariant
                i <= src@.len(),
                offset + src@.len() <= n,
                n == dst@.len(),
                dst@.len() == old(dst)@.len(),
                forall|t: int| 0 <= t < dst@.len() ==> #[trigger] dst@[t] ==
                    if offset <= t < offset + i { src@[t - offset] } else { old(dst)@[t] },
            decreases src@.len() - i,
        {
            dst[offset + i] = src[i];
            i = i + 1;
        }
        assert(dst@ =~= splice(old(dst)@, offset as int, src@));
    } else {
        assert(dst@ =~= splice(old(dst)@, offset as int, src@));
    }
}

impl FicHandler {
    /// Check the three FIBs of the decoded codeword and feed those that pass
    /// the CRC to the database. Returns whether all passed and how many did.
    #[verifier::spinoff_prover]
    #[verifier::rlimit(30)]
    fn feed_fibs(&mut self, ficno: usize, events: &mut Vec<FibEvent>) -> (r: (bool, i16))
        requires old(self).wf(), ficno < 256,
        ensures
            final(self).wf(),
            final(self).ofdm_input@ == old(self).ofdm_input@,
            final(self).ofdm_input_index == old(self).ofdm_input_index,
            final(self).fic_decode_index == old(self).fic_decode_index,
            final(self).is_running == old(self).is_running,
            final(self).bits_per_block == old(self).bits_per_block,
            final(self).bit_buffer_out@ == old(self).bit_buffer_out@,
            final(self).fib_bits_frame@ == old(self).fib_bits_frame@,
            final(self).fic_valid@ == old(self).fic_valid@,
            final(self).fic_decode_ratio_steps == old(self).fic_decode_ratio_steps,
            final(self).fib_processor@ == fibs_apply(old(self).fib_processor@, old(self).bit_buffer_out@, 3).0,
            events_view(final(events)@) == events_view(old(events)@) + fibs_apply(old(self).fib_processor@, old(self).bit_buffer_out@, 3).1,
            r.0 == fic_chunk_valid(old(self).bit_buffer_out@),
            r.1 == fibs_ok_count(old(self).bit_buffer_out@, 3),
            final(self).fic_success == sat_add(old(self).fic_success, fibs_ok_count(old(self).bit_buffer_out@, 3)),
            final(self).fic_errors == sat_add(old(self).fic_errors, (3 - fibs_ok_count(old(self).bit_buffer_out@, 3)) as nat),
    {
        let ghost bits = self.bit_buffer_out@;
        let ghost v0 = self.fib_processor@;
        let ghost e0 = events_view(events@);
        let ghost s0 = self.fic_success;
        let ghost er0 = self.fic_errors;
        let mut valid = true;
        let mut frame_success: i16 = 0;
        let mut fib_idx: usize = 0;
        proof {
            reveal(fibs_apply);
            assert(e0 + fibs_apply(v0, bits, 0).1 =~= e0);
        }
        while fib_idx < FIBS_PER_FIC
            invariant
                fib_idx <= 3,
                self.wf(),
                self.ofdm_input@ == old(self).ofdm_input@,
                self.ofdm_input_index == old(self).ofdm_input_index,
                self.fic_decode_index == old(self).fic_decode_index,
                self.is_running == old(self).is_running,
                self.bits_per_block == old(self).bits_per_block,
                self.bit_buffer_out@ == bits,
                self.fib_bits_frame@ == old(self).fib_bits_frame@,
                self.fic_valid@ == old(self).fic_valid@,
                self.fic_decode_ratio_steps == old(self).fic_decode_ratio_steps,
                bits == old(self).bit_buffer_out@,
                v0 == old(self).fib_processor@,
                e0 == events_view(old(events)@),
                s0 == old(self).fic_success,
                er0 == old(self).fic_errors,
                s0 >= 0,
                er0 >= 0,
                self.fib_processor@ == fibs_apply(v0, bits, fib_idx as nat).0,
                events_view(events@) == e0 + fibs_apply(v0, bits, fib_idx as nat).1,
                frame_success == fibs_ok_count(bits, fib_idx as nat),
                fibs_ok_count(bits, fib_idx as nat) <= fib_idx,
                self.fic_success == sat_add(s0, fibs_ok_count(bits, fib_idx as nat)),
                self.fic_errors == sat_add(er0, (fib_idx - fibs_ok_count(bits, fib_idx as nat)) as nat),
                valid == (forall|j: int| 0 <= j < fib_idx ==> #[trigger] fib_crc_ok(bits, j)),
            decreases 3 - fib_idx,
        {
            proof { reveal(fibs_apply); }
            let p = vstd::slice::slice_subrange(self.bit_buffer_out.as_slice(), fib_idx * 256, fib_idx * 256 + 256);
            let crc = check_crc_bits(p, 256);
            if !crc {
                valid = false;
                if self.fic_errors < i32::MAX {
                    self.fic_errors = self.fic_errors + 1;
                }
            } else {
                if self.fic_success < i32::MAX {
                    self.fic_success = self.fic_success + 1;
                }
                frame_success = frame_success + 1;
                let ghost e_before = events@;
                let mut new_events = self.fib_processor.process_fib(p, ficno as u16);
                let ghost e_new = new_events@;
                events.append(&mut new_events);
                proof { lemma_events_view_concat(e_before, e_new); }
            }
            fib_idx = fib_idx + 1;
        }
        (valid, frame_success)
    }

    /// Decode the codeword held in the input buffer: depuncture, Viterbi,
    /// descramble, check the three FIBs and feed the good ones to the
    /// database; the decoded bits go to slot `ficno` of `fib_bytes` and of
    /// the frame snapshot. Returns whether all three FIBs were good.
    fn process_fic_input(&mut self, ficno: usize, fib_bytes: &mut [u8], events: &mut Vec<FibEvent>) -> (ok: bool)
        requires old(self).wf(), old(self).is_running, ficno < 256,
        ensures
            final(self).wf(),
            final(self).ofdm_input@ == old(self).ofdm_input@,
            final(self).ofdm_input_index == old(self).ofdm_input_index,
            final(self).fic_decode_index == old(self).fic_decode_index,
            final(self).is_running == old(self).is_running,
            final(self).bits_per_block == old(self).bits_per_block,
            final(self).run_of(final(fib_bytes)@, Seq::empty(), events_view(final(events)@))
                == fic_step_core(old(self).run_of(old(fib_bytes)@, Seq::empty(), events_view(old(events)@)), old(self).ofdm_input@, ficno as int),
            ok == fic_chunk_valid(fic_bits(old(self).ofdm_input@)),
    {
        if !self.is_running {
            return false;
        }
        let ghost chunk = self.ofdm_input@;
        let ghost r0 = self.run_of(fib_bytes@, Seq::empty(), events_view(events@));
        self.depuncture_fic_bits();
        let mut decoded: Vec<u8> = Vec::new();
        std::mem::swap(&mut decoded, &mut self.bit_buffer_out);
        self.viterbi.deconvolve(self.viterbi_block.as_slice(), decoded.as_mut_slice());
        self.bit_buffer_out = decoded;
        proof {
            assert(self.bit_buffer_out@ =~= viterbi_decode(768, depunctured(fic_mask(), chunk, 3096)).subrange(0, 768));
        }
        self.descramble_fic_bits();
        let ghost bits = fic_bits(chunk);
        assert(self.bit_buffer_out@ =~= bits) by { reveal(fic_bits); }

        let (valid, frame_success) = self.feed_fibs(ficno, events);
        proof {
            lemma_ok_count_bound(bits, 3);
            lemma_ratio_update_range(r0.steps as int, frame_success as int, 3);
        }
        self.fic_decode_ratio_steps = update_decode_ratio_steps(self.fic_decode_ratio_steps, frame_success, FIBS_PER_FIC as i16);

        let offset = ficno * FIC_BITS_OUT_SIZE;
        copy_codeword(fib_bytes, offset, self.bit_buffer_out.as_slice());
        let mut frame: Vec<u8> = Vec::new();
        std::mem::swap(&mut frame, &mut self.fib_bits_frame);
        copy_codeword(frame.as_mut_slice(), offset, self.bit_buffer_out.as_slice());
        self.fib_bits_frame = frame;
        proof {
            reveal(fic_step_core);
            assert(self.run_of(fib_bytes@, Seq::empty(), events_view(events@)) == fic_step_core(r0, chunk, ficno as int));
        }
        valid
    }
}

impl FicHandler {
    /// Append the soft bits of one FIC symbol to the codeword buffer,
    /// decoding every codeword that becomes complete. `block` continues the
    /// frame input `fr` from position `base`.
    fn collect_block_soft_bits(&mut self, block: &[i16], out: &mut [u8], valid: &mut [bool],
        events: &mut Vec<FibEvent>, Ghost(fr): Ghost<Seq<i16>>, Ghost(base): Ghost<nat>, Ghost(r0): Ghost<FicRun>)
        requires
            old(self).wf(),
            old(self).is_running,
            fr.len() <= 3 * 65534,
            base + block@.len() <= fr.len(),
            block@ == fr.subrange(base as int, (base + block@.len()) as int),
            collected(old(self)@, old(self).ofdm_input@, old(self).ofdm_input_index as nat, old(self).fic_decode_index as nat,
                fr, base, r0, old(self).run_of(old(out)@, old(valid)@, events_view(old(events)@))),
        ensures
            final(self).wf(),
            final(self).is_running,
            final(self).bits_per_block == old(self).bits_per_block,
            collected(final(self)@, final(self).ofdm_input@, final(self).ofdm_input_index as nat, final(self).fic_decode_index as nat,
                fr, base + block@.len(), r0, final(self).run_of(final(out)@, final(valid)@, events_view(final(events)@))),
    {
        let mut j: usize = 0;
        while j < block.len()
            invariant
                j <= block@.len(),
                self.wf(),
                self.is_running,
                self.bits_per_block == old(self).bits_per_block,
                fr.len() <= 3 * 65534,
                base + block@.len() <= fr.len(),
                block@ == fr.subrange(base as int, (base + block@.len()) as int),
                collected(self@, self.ofdm_input@, self.ofdm_input_index as nat, self.fic_decode_index as nat,
                    fr, (base + j) as nat, r0, self.run_of(out@, valid@, events_view(events@))),
            decreases block@.len() - j,
        {
            let ghost t = (base + j) as nat;
            let soft_bit = block[j];
            assert(soft_bit == fr[t as int]);
            self.ofdm_input.set(self.ofdm_input_index, soft_bit);
            self.ofdm_input_index = self.ofdm_input_index + 1;
            if self.ofdm_input_index >= self.ofdm_input.len() {
                assert(self.ofdm_input@ =~= fr.subrange(t + 1 - 2304, (t + 1) as int));
                self.complete_codeword(out, valid, events, Ghost(fr), Ghost((t + 1) as nat), Ghost(r0));
            }
            j = j + 1;
        }
    }

    /// The input buffer holds codeword `t / 2304 - 1` of `fr` in full:
    /// decode it and record its validity.
    fn complete_codeword(&mut self, out: &mut [u8], valid: &mut [bool], events: &mut Vec<FibEvent>,
        Ghost(fr): Ghost<Seq<i16>>, Ghost(t): Ghost<nat>, Ghost(r0): Ghost<FicRun>)
        requires
            old(self).wf(),
            old(self).is_running,
            fr.len() <= 3 * 65534,
            2304 <= t <= fr.len(),
            t % 2304 == 0,
            old(self).ofdm_input_index == 2304,
            old(self).fic_decode_index == t / 2304 - 1,
            old(self).ofdm_input@ == fr.subrange(t - 2304, t as int),
            old(self).run_of(old(out)@, old(valid)@, events_view(old(events)@)) == fic_run(r0, fr, (t / 2304 - 1) as nat),
        ensures
            final(self).wf(),
            final(self).is_running,
            final(self).bits_per_block == old(self).bits_per_block,
            collected(final(self)@, final(self).ofdm_input@, final(self).ofdm_input_index as nat, final(self).fic_decode_index as nat,
                fr, t, r0, final(self).run_of(final(out)@, final(valid)@, events_view(final(events)@))),
    {
        let ficno = self.fic_decode_index;
        let ghost f = ficno as int;
        let ghost chunk = self.ofdm_input@;
        let ghost run_before = self.run_of(out@, valid@, events_view(events@));
        let ghost valid_before = valid@;
        let ghost run_empty = self.run_of(out@, Seq::empty(), events_view(events@));
        let block_valid = self.process_fic_input(ficno, out, events);
        let ghost core = fic_step_core(run_before, chunk, f);
        assert(self.run_of(out@, valid_before, events_view(events@)) == core) by { reveal(fic_step_core); }
        if ficno < self.fic_valid.len() {
            self.fic_valid.set(ficno, block_valid);
        }
        if ficno < valid.len() {
            valid[ficno] = block_valid;
        }
        self.ofdm_input_index = 0;
        self.fic_decode_index = self.fic_decode_index + 1;
        proof {
            reveal(fic_step);
            reveal(fic_step_core);
            assert(self.fic_valid@ =~= (if 0 <= f < core.frame_valid.len() { core.frame_valid.update(f, block_valid) } else { core.frame_valid }));
            assert(valid@ =~= (if 0 <= f < core.valid.len() { core.valid.update(f, block_valid) } else { core.valid }));
            assert(fr.subrange(f * 2304, ((f + 1) * 2304) as int) == chunk);
            assert(self.run_of(out@, valid@, events_view(events@)) == fic_step(run_before, chunk, f));
        }
    }

    /// Decode the FIC of one frame: the three FIC symbols (`3 * bits_per_block`
    /// soft bits at the start of `data`) are cut into codewords of 2304 soft
    /// bits and each is decoded in turn. Codeword `f` goes to
    /// `out[768 f .. 768 f + 768]` and its validity to `valid[f]` where they
    /// fit. Returns the label announcements of the good FIBs. A stopped
    /// decoder does nothing.
    pub fn process_block(&mut self, data: &[i16], out: &mut [u8], valid: &mut [bool]) -> (events: Vec<FibEvent>)
        requires
            old(self).wf(),
            data@.len() >= 3 * old(self)@.bits_per_block,
        ensures
            final(self).wf(),
            !old(self)@.running ==> final(self)@ == old(self)@ && final(out)@ == old(out)@
                && final(valid)@ == old(valid)@ && events@.len() == 0,
            old(self)@.running ==> ({
                let r = frame_result(old(self)@, data@, old(out)@, old(valid)@);
                &&& final(self)@ == view_after(old(self)@, r)
                &&& final(out)@ == r.out
                &&& final(valid)@ == r.valid
                &&& events_view(events@) == r.events
            }),
    {
        let mut events: Vec<FibEvent> = Vec::new();
        if !self.is_running {
            return events;
        }
        self.reset_frame_collection();
        let bpb = self.bits_per_block;
        let ghost fr = data@.subrange(0, 3 * bpb as int);
        let ghost r0 = frame_start(old(self)@, old(out)@, old(valid)@);
        proof {
            assert(self.run_of(out@, valid@, events_view(events@)) == r0) by {
                assert(events_view(events@) =~= Seq::<FibEventView>::empty());
            }
            assert(collected(self@, self.ofdm_input@, 0, 0, fr, 0, r0, r0));
        }
        let mut i: usize = 0;
        while i < FIBS_PER_FIC
            invariant
                i <= 3,
                self.wf(),
                self.is_running,
                self.bits_per_block == bpb,
                bpb <= 65534,
                data@.len() >= 3 * bpb,
                fr == data@.subrange(0, 3 * bpb as int),
                collected(self@, self.ofdm_input@, self.ofdm_input_index as nat, self.fic_decode_index as nat,
                    fr, (i * bpb) as nat, r0, self.run_of(out@, valid@, events_view(events@))),
            decreases 3 - i,
        {
            let start = i * bpb;
            let end = start + bpb;
            assert(end <= 3 * bpb) by (nonlinear_arith) requires i < 3, start == i * bpb, end == start + bpb;
            let blk = vstd::slice::slice_subrange(data, start, end);
            assert(blk@ =~= fr.subrange(start as int, start + blk@.len()));
            self.collect_block_soft_bits(blk, out, valid, &mut events, Ghost(fr), Ghost(start as nat), Ghost(r0));
            assert((i + 1) * bpb == start + bpb) by (nonlinear_arith) requires start == i * bpb;
            i = i + 1;
        }
        events
    }

    /// Same as [`FicHandler::process_block`].
    pub fn process_fic_block(&mut self, data: &[i16], out: &mut [u8], valid: &mut [bool]) -> (events: Vec<FibEvent>)
        requires
            old(self).wf(),
            data@.len() >= 3 * old(self)@.bits_per_block,
        ensures
            final(self).wf(),
            !old(self)@.running ==> final(self)@ == old(self)@ && final(out)@ == old(out)@
                && final(valid)@ == old(valid)@ && events@.len() == 0,
            old(self)@.running ==> ({
                let r = frame_result(old(self)@, data@, old(out)@, old(valid)@);
                &&& final(self)@ == view_after(old(self)@, r)
                &&& final(out)@ == r.out
                &&& final(valid)@ == r.valid
                &&& events_view(events@) == r.events
            }),
    {
        self.process_block(data, out, valid)
    }

    /// Stop decoding and forget the ensemble.
    pub fn stop(&mut self)
        requires old(self).wf(),
        ensures
            final(self).wf(),
            final(self)@ == (FicView { running: false, fib: crate::fib::empty_fib_view(), ..old(self)@ }),
    {
        self.is_running = false;
        self.fib_processor.clear_ensemble();
    }

    /// Resume decoding with cleared counters and an empty frame snapshot;
    /// the ensemble database is kept.
    pub fn restart(&mut self)
        requires old(self).wf(),
        ensures
            final(self).wf(),
            final(self)@ == (FicView {
                running: true,
                steps: 0,
                errors: 0,
                success: 0,
                frame_bits: Seq::new(3072, |i: int| 0u8),
                frame_valid: Seq::new(4, |i: int| false),
                ..old(self)@
            }),
    {
        self.fic_decode_ratio_steps = 0;
        self.reset_quality_counters();
        self.reset_frame_collection();
        self.is_running = true;
    }

    /// Copy the decoded bits and the validity flags of the last frame into
    /// `v` and `b`, as far as they reach.
    pub fn get_fib_bits(&self, v: &mut [u8], b: &mut [bool])
        requires self.wf(),
        ensures
            final(v)@ == Seq::new(old(v)@.len(), |i: int| if i < 3072 { self@.frame_bits[i] } else { old(v)@[i] }),
            final(b)@ == Seq::new(old(b)@.len(), |i: int| if i < 4 { self@.frame_valid[i] } else { old(b)@[i] }),
    {
        let n = v.len();
        let mut i: usize = 0;
        while i < n && i < self.fib_bits_frame.len()
            invariant
                i <= n,
                i <= 3072,
                n == v@.len(),
                v@.len() == old(v)@.len(),
                self.wf(),
                forall|t: int| 0 <= t < n ==> #[trigger] v@[t] == if t < i { self@.frame_bits[t] } else { old(v)@[t] },
            decreases n - i,
        {
            v[i] = self.fib_bits_frame[i];
            i = i + 1;
        }
        assert forall|t: int| 0 <= t < n implies #[trigger] v@[t] == (if t < 3072 { self@.frame_bits[t] } else { old(v)@[t] }) by {
            if t < 3072 { assert(t < i); }
        }
        assert(v@ =~= Seq::new(old(v)@.len(), |i: int| if i < 3072 { self@.frame_bits[i] } else { old(v)@[i] }));
        let m = b.len();
        let mut k: usize = 0;
        while k < m && k < self.fic_valid.len()
            invariant
                k <= m,
                k <= 4,
                m == b@.len(),
                b@.len() == old(b)@.len(),
                self.wf(),
                forall|t: int| 0 <= t < m ==> #[trigger] b@[t] == if t < k { self@.frame_valid[t] } else { old(b)@[t] },
            decreases m - k,
        {
            b[k] = self.fic_valid[k];
            k = k + 1;
        }
        assert forall|t: int| 0 <= t < m implies #[trigger] b@[t] == (if t < 4 { self@.frame_valid[t] } else { old(b)@[t] }) by {
            if t < 4 { assert(t < k); }
        }
        assert(b@ =~= Seq::new(old(b)@.len(), |i: int| if i < 4 { self@.frame_valid[i] } else { old(b)@[i] }));
    }

    /// Descriptor of sub-channel `n` as announced by FIG 0/1.
    pub fn get_channel_info(&self, n: usize) -> (c: ChannelData)
        requires self.wf(), n < 64,
        ensures
            c == (ChannelData {
                in_use: self@.fib.sub_channels[n as int].in_use,
                id: self@.fib.sub_channels[n as int].id,
                start_cu: self@.fib.sub_channels[n as int].start_cu,
                uep_flag: self@.fib.sub_channels[n as int].uep_flag,
                protlev: self@.fib.sub_channels[n as int].protlev,
                size: self@.fib.sub_channels[n as int].size,
                bitrate: self@.fib.sub_channels[n as int].bitrate,
            }),
            eep_params_ok(c.bitrate, c.protlev),
    {
        self.fib_processor.get_channel_info(n)
    }

    /// (CIF count high, low) of the latest FIG 0/0, (−1, −1) before any.
    pub fn get_cif_count(&self) -> (r: (i16, i16))
        ensures r == (self@.fib.cif_count_hi, self@.fib.cif_count_lo),
    {
        self.fib_processor.get_cif_count()
    }

    /// The ensemble database.
    pub fn fib_processor(&self) -> (f: &FibProcessor)
        ensures
            f@ == self@.fib,
            self.wf() ==> f.wf(),
    {
        &self.fib_processor
    }

    /// Zero the FIB CRC counters (done at the start of each FIC frame).
    pub fn reset_quality_counters(&mut self)
        requires old(self).wf(),
        ensures
            final(self).wf(),
            final(self)@ == (FicView { errors: 0, success: 0, ..old(self)@ }),
    {
        self.fic_errors = 0;
        self.fic_success = 0;
    }

    /// (good FIBs, all FIBs) counted since the counters were last reset,
    /// truncated to 16 bits.
    pub fn get_fic_counts(&self) -> (r: (i16, i16))
        ensures r == (self@.success as i16, (self@.success + self@.errors) as i16),
    {
        let total: i64 = self.fic_success as i64 + self.fic_errors as i64;
        (self.fic_success as i16, total as i16)
    }

    /// Percentage of good FIBs since the counters were last reset (0 when
    /// none was seen).
    pub fn get_fic_quality(&self) -> (q: i16)
        requires self.wf(),
        ensures
            q == (if self@.errors + self@.success > 0 { (self@.success * 100) / (self@.errors + self@.success) } else { 0 }),
            0 <= q <= 100,
    {
        let total: i64 = self.fic_errors as i64 + self.fic_success as i64;
        if total > 0 {
            let s: i64 = self.fic_success as i64;
            let q: i64 = (s * 100) / total;
            assert(0 <= q <= 100) by (nonlinear_arith) requires 0 <= s <= total, total > 0, q == (s * 100) / (total as int);
            q as i16
        } else {
            0
        }
    }

    /// Smoothed decode ratio in percent: 0, 10, …, 100.
    pub fn get_fic_decode_ratio_percent(&self) -> (p: i16)
        requires self.wf(),
        ensures p == self@.steps * 10, 0 <= p <= 100,
    {
        self.fic_decode_ratio_steps * 10
    }
}

/// The frame snapshot kept by the decoder agrees with the caller's buffers:
/// decoding codewords into buffers that equal the snapshot keeps them equal,
/// so `get_fib_bits` reads back what `process_fic_block` wrote into a
/// cleared 3072-bit buffer and 4-flag array.
pub proof fn lemma_snapshot_matches_output(r: FicRun, fr: Seq<i16>, n: nat)
    requires r.out == r.frame_bits, r.valid == r.frame_valid,
    ensures
        fic_run(r, fr, n).out == fic_run(r, fr, n).frame_bits,
        fic_run(r, fr, n).valid == fic_run(r, fr, n).frame_valid,
    decreases n,
{
    if n > 0 {
        lemma_snapshot_matches_output(r, fr, (n - 1) as nat);
        reveal(fic_step);
        reveal(fic_step_core);
    }
}

/// What a frame writes into the caller's buffers depends on the soft bits
/// alone, not on the ensemble database or the counters: two decoders fed the
/// same input produce the same output and validity flags.
pub proof fn lemma_output_depends_on_input_only(r1: FicRun, r2: FicRun, fr: Seq<i16>, n: nat)
    requires r1.out == r2.out, r1.valid == r2.valid,
    ensures
        fic_run(r1, fr, n).out == fic_run(r2, fr, n).out,
        fic_run(r1, fr, n).valid == fic_run(r2, fr, n).valid,
    decreases n,
{
    if n > 0 {
        lemma_output_depends_on_input_only(r1, r2, fr, (n - 1) as nat);
        reveal(fic_step);
        reveal(fic_step_core);
    }
}

/// Codeword `f` of the frame lands in slot `f` of an output buffer that
/// has room for it: the bits there are the decoded codeword and the flag is
/// its validity.
pub proof fn lemma_codeword_slot(r: FicRun, fr: Seq<i16>, n: nat, f: int)
    requires 0 <= f < n, n * 2304 <= fr.len(), r.out.len() >= (f + 1) * 768, r.valid.len() > f,
    ensures
        fic_run(r, fr, n).out.subrange(f * 768, f * 768 + 768)
            == fic_bits(fr.subrange(f * 2304, f * 2304 + 2304)),
        fic_run(r, fr, n).valid[f] == fic_chunk_valid(fic_bits(fr.subrange(f * 2304, f * 2304 + 2304))),
    decreases n,
{
    reveal(fic_step);
    reveal(fic_step_core);
    lemma_run_lengths(r, fr, (n - 1) as nat);
    if f + 1 < n {
        lemma_codeword_slot(r, fr, (n - 1) as nat, f);
        let prev = fic_run(r, fr, (n - 1) as nat);
                assert(fic_run(r, fr, n).out.subrange(f * 768, f * 768 + 768) =~= prev.out.subrange(f * 768, f * 768 + 768));
    } else {
        let prev = fic_run(r, fr, (n - 1) as nat);
        assert(fic_run(r, fr, n).out.subrange(f * 768, f * 768 + 768)
            =~= fic_bits(fr.subrange(f * 2304, f * 2304 + 2304))) by {
            assert(fic_bits(fr.subrange(f * 2304, f * 2304 + 2304)).len() == 768) by { reveal(fic_bits); }
        }
    }
}

/// Decoding never changes the lengths of the buffers.
pub proof fn lemma_run_lengths(r: FicRun, fr: Seq<i16>, n: nat)
    ensures
        fic_run(r, fr, n).out.len() == r.out.len(),
        fic_run(r, fr, n).valid.len() == r.valid.len(),
        fic_run(r, fr, n).frame_bits.len() == r.frame_bits.len(),
        fic_run(r, fr, n).frame_valid.len() == r.frame_valid.len(),
    decreases n,
{
    if n > 0 {
        lemma_run_lengths(r, fr, (n - 1) as nat);
        reveal(fic_step);
        reveal(fic_step_core);
    }
}

} // verus!
