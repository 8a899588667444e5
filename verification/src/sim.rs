//! Building blocks of the channel-coding simulation: a reproducible
//! pseudo-random generator, the rate 1/4, K = 7 convolutional encoder of
//! the transmitter and a bit-error counter; and the proof that the Viterbi
//! decoder returns the message of every clean codeword of this encoder.

use vstd::prelude::*;
use crate::viterbi::{
    acs_step, ber_checked, ber_counts, ber_error, branch_metric, branch_symbol, enc_reg, parity,
    parity_spec, path_metrics, poly, renormalized, seq_min, survivor, symbols_of, tb_state,
    total_symbols, viterbi_decode, wadd,
};

verus! {

/// Constraint length of the code.
pub const SIM_K: usize = 7;
/// Coded bits per data bit.
pub const SIM_RATE: usize = 4;

pub open spec fn lcg_step(s: u64) -> u64 {
    vstd::wrapping::u64_specs::wrapping_add(
        vstd::wrapping::u64_specs::wrapping_mul(s, 6364136223846793005u64),
        1442695040888963407u64,
    )
}

/// 64-bit linear congruential generator; outputs the top 32 state bits.
pub struct Lcg {
    pub state: u64,
}

impl Lcg {
    /// Generator seeded with `seed` (forced odd).
    pub fn new(seed: u64) -> (g: Self)
        ensures g.state == seed | 1,
    {
        Lcg { state: seed | 1 }
    }

    /// Advance the state and return its top 32 bits.
    pub fn next_u32(&mut self) -> (r: u32)
        ensures
            final(self).state == lcg_step(old(self).state),
            r == (final(self).state >> 32u64) as u32,
    {
        self.state = self.state.wrapping_mul(6364136223846793005).wrapping_add(1442695040888963407);
        (self.state >> 32) as u32
    }
}

/// Encoder register after input position `i`: the last seven input values
/// (data bits, then K − 1 zero tail bits), newest in bit 0.
pub open spec fn sim_reg(bits: Seq<u8>, n: nat, i: int) -> u32
    decreases i + 1,
{
    if i < 0 {
        0
    } else {
        let b: u32 = if i < n { bits[i] as u32 } else { 0 };
        ((sim_reg(bits, n, i - 1) << 1u32) | b) & 127u32
    }
}

/// Rate 1/4, K = 7 convolutional encoding of `data_bits` followed by six
/// zero tail bits: coded bit `4 i + r` is the parity of the register after
/// input `i` masked with generator polynomial `r`.
pub fn conv_encode(data_bits: &[u8]) -> (out: Vec<u8>)
    requires data_bits@.len() + 6 <= usize::MAX / 4,
    ensures
        out@.len() == 4 * (data_bits@.len() + 6),
        forall|q: int| 0 <= q < out@.len() ==> #[trigger] out@[q]
            == parity_spec(sim_reg(data_bits@, data_bits@.len() as nat, q / 4) & poly(q % 4)) as u8,
{
    let n = data_bits.len();
    let total = SIM_RATE * (n + SIM_K - 1);
    let mut out: Vec<u8> = Vec::new();
    let mut shift_reg: u32 = 0;
    let mut i: usize = 0;
    while i < n + SIM_K - 1
        invariant
            i <= n + 6,
            n == data_bits@.len(),
            n + 6 <= usize::MAX / 4,
            shift_reg == sim_reg(data_bits@, n as nat, i - 1),
            out@.len() == 4 * i,
            forall|q: int| 0 <= q < out@.len() ==> #[trigger] out@[q]
                == parity_spec(sim_reg(data_bits@, n as nat, q / 4) & poly(q % 4)) as u8,
        decreases n + 6 - i,
    {
        let bit: u8 = if i < n { data_bits[i] } else { 0 };
        let prev = shift_reg;
        let b32 = bit as u32;
        shift_reg = ((prev << 1) | b32) & 127;
        assert(shift_reg <= 127u32) by (bit_vector) requires shift_reg == ((prev << 1u32) | b32) & 127u32;
        let mut r: usize = 0;
        while r < SIM_RATE
            invariant
                r <= 4,
                i < n + 6,
                n + 6 <= usize::MAX / 4,
                shift_reg == sim_reg(data_bits@, n as nat, i as int),
                shift_reg <= 127,
                out@.len() == 4 * i + r,
                forall|q: int| 0 <= q < out@.len() ==> #[trigger] out@[q]
                    == parity_spec(sim_reg(data_bits@, n as nat, q / 4) & poly(q % 4)) as u8,
            decreases 4 - r,
        {
            let p = crate::viterbi::poly_of(r);
            let masked = shift_reg & p;
            assert(masked <= 127u32) by (bit_vector) requires masked == shift_reg & p, shift_reg <= 127u32;
            let bitv = parity(masked as i32);
            let ghost q = (4 * i + r) as int;
            assert(q / 4 == i && q % 4 == r);
            out.push(bitv as u8);
            r = r + 1;
        }
        i = i + 1;
    }
    out
}

/// Number of positions (within the shorter slice) where the bits differ.
pub fn count_errors(a: &[u8], b: &[u8]) -> (n: usize)
    ensures n == diff_count(a@, b@, if a@.len() < b@.len() { a@.len() as int } else { b@.len() as int }),
{
    let m = if a.len() < b.len() { a.len() } else { b.len() };
    let mut n: usize = 0;
    let mut i: usize = 0;
    while i < m
        invariant
            i <= m,
            m <= a@.len(),
            m <= b@.len(),
            n <= i,
            n == diff_count(a@, b@, i as int),
        decreases m - i,
    {
        if a[i] != b[i] {
            n = n + 1;
        }
        i = i + 1;
    }
    n
}

/// Positions among the first `k` where `a` and `b` differ.
pub open spec fn diff_count(a: Seq<u8>, b: Seq<u8>, k: int) -> nat
    decreases k,
{
    if k <= 0 { 0 } else { diff_count(a, b, k - 1) + if a[k - 1] != b[k - 1] { 1nat } else { 0 } }
}

// ── A clean codeword decodes to its message ─────────────────────────────

/// Input value `t` of the encoder: data bit, then zero tail bits.
pub open spec fn enc_input(bits: Seq<u8>, n: nat, t: int) -> u32 {
    if 0 <= t < n { bits[t] as u32 } else { 0 }
}

/// Trellis state before step `t`: the six most recent encoder inputs.
pub open spec fn enc_state(bits: Seq<u8>, n: nat, t: int) -> u32 {
    sim_reg(bits, n, t - 1) & 63u32
}

/// Bit-level facts about the register, its 6-bit state and the symbols.
proof fn bv_register(prev: u32, b: u32)
    by (bit_vector)
    requires prev <= 127u32, b <= 1u32,
    ensures
        ((prev << 1u32) | b) & 127u32 == 2 * (prev & 63u32) + b,
        2 * (prev & 63u32) + b <= 127,
{
}

proof fn bv_state(st: u32, b: u32, r: u32)
    by (bit_vector)
    requires st <= 63u32, b <= 1u32, r == (2 * st + b) as u32,
    ensures
        (r & 63u32) & 1u32 == b,
        (r & 63u32) == 2 * (st % 32) + b,
        (r & 63u32) / 2 == st % 32,
        (((r & 63u32) >> 1u32) | ((st >> 5u32) << 5u32)) & 63u32 == st,
        (st >> 5u32) == (if st >= 32u32 { 1u32 } else { 0u32 }),
        (st >= 32u32) == ((st >> 5u32) & 1u32 == 1u32),
{
}

proof fn bv_state_bit(st: u32, b: u32, r: u32, kk: u32, km: u32)
    by (bit_vector)
    requires st <= 63u32, b <= 1u32, r == (2 * st + b) as u32, 1u32 <= kk <= 5u32, km + 1u32 == kk,
    ensures ((r & 63u32) >> kk) & 1u32 == (st >> km) & 1u32,
{
}

proof fn bv_small(x: u32, q: u32, h: u32, b: u32, z: u32)
    by (bit_vector)
    ensures
        parity_spec(x) <= 1u32,
        x & 63u32 <= 63u32,
        x >> 0u32 == x,
        0u32 & 63u32 == 0u32,
        (q <= 1u32 && h <= 1u32 && b <= 1u32 && h == b) ==> q ^ h ^ b == q,
        (q <= 1u32 && h <= 1u32 && b <= 1u32 && h != b) ==> q ^ h ^ b == 1 - q,
        (z <= 63u32 && (z >> 0u32) & 1u32 == 0u32 && (z >> 1u32) & 1u32 == 0u32 && (z >> 2u32) & 1u32 == 0u32
            && (z >> 3u32) & 1u32 == 0u32 && (z >> 4u32) & 1u32 == 0u32 && (z >> 5u32) & 1u32 == 0u32) ==> z == 0u32,
{
}

proof fn bv_parity(st: u32, h: u32, b: u32, x: u32, y: u32)
    by (bit_vector)
    requires st < 32u32, h <= 1u32, b <= 1u32, x == (2 * st + 64 * h + b) as u32, y == (2 * st) as u32,
    ensures
        parity_spec(x & 109u32) == parity_spec(y & 109u32) ^ h ^ b,
        parity_spec(x & 79u32) == parity_spec(y & 79u32) ^ h ^ b,
        parity_spec(x & 83u32) == parity_spec(y & 83u32) ^ h ^ b,
{
}

proof fn bv_byte(x: u8)
    by (bit_vector)
    ensures (0u8 ^ x) == x, (255u8 ^ x) == 255 - x,
{
}

proof fn lemma_sim_reg_shift(bits: Seq<u8>, n: nat, t: int)
    requires forall|i: int| 0 <= i < n ==> #[trigger] bits[i] <= 1,
    ensures
        sim_reg(bits, n, t) <= 127,
        t >= 0 ==> sim_reg(bits, n, t) == 2 * enc_state(bits, n, t) + enc_input(bits, n, t),
    decreases t + 1,
{
    if t >= 0 {
        lemma_sim_reg_shift(bits, n, t - 1);
        let prev = sim_reg(bits, n, t - 1);
        let b = enc_input(bits, n, t);
        assert(b <= 1);
        bv_register(prev, b);
    }
}

/// Bit `k` of the state before step `t + k + 1` is the input of step `t`.
proof fn lemma_state_oldest_bit(bits: Seq<u8>, n: nat, t: int, k: int)
    requires
        forall|i: int| 0 <= i < n ==> #[trigger] bits[i] <= 1,
        t >= 0,
        0 <= k <= 5,
    ensures (enc_state(bits, n, t + k + 1) >> (k as u32)) & 1u32 == enc_input(bits, n, t),
    decreases k,
{
    lemma_sim_reg_shift(bits, n, t + k);
    let st = enc_state(bits, n, t + k);
    let b = enc_input(bits, n, t + k);
    assert(b <= 1);
    let r = sim_reg(bits, n, t + k);
    assert(r == (2 * st + b) as u32);
    assert(enc_state(bits, n, t + k + 1) == r & 63u32);
    bv_small(sim_reg(bits, n, t + k - 1), 0, 0, 0, 0);
    bv_state(st, b, r);
    if k == 0 {
        bv_small(r & 63u32, 0, 0, 0, 0);
    } else {
        lemma_state_oldest_bit(bits, n, t, k - 1);
        bv_state_bit(st, b, r, k as u32, (k - 1) as u32);
    }
}

/// Parity of the register masked by a generator: flipping the oldest
/// state bit or the input flips every output of this code.
proof fn lemma_branch_parity(st: u32, h: u32, b: u32, r: int)
    requires st < 32, h <= 1, b <= 1, 0 <= r < 4,
    ensures
        parity_spec(((2 * st + 64 * h + b) as u32) & poly(r))
            == parity_spec(((2 * st) as u32) & poly(r)) ^ h ^ b,
{
    let x = (2 * st + 64 * h + b) as u32;
    let y = (2 * st) as u32;
    bv_parity(st, h, b, x, y);
}

/// Distance of a received symbol to the nearer of the two ideal symbols
/// 0 and 255.
pub open spec fn minsym(x: u8) -> int {
    if x < 128 { x as int } else { 255 - x }
}

/// Smallest branch metric possible at step `t`.
pub open spec fn min_branch_metric(syms: Seq<u8>, t: int) -> int {
    minsym(syms[4 * t]) + minsym(syms[4 * t + 1]) + minsym(syms[4 * t + 2]) + minsym(syms[4 * t + 3])
}

proof fn lemma_xor_byte(x: u8)
    ensures (0u8 ^ x) == x, (255u8 ^ x) == 255 - x,
{
    bv_byte(x);
}

/// No branch of a step, nor its complement, comes below the smallest
/// possible metric.
proof fn lemma_branch_at_least_min(syms: Seq<u8>, t: int, st: int)
    requires 0 <= t, 4 * t + 3 < syms.len(), 0 <= st < 32,
    ensures
        branch_metric(syms, t, st) >= min_branch_metric(syms, t),
        1020 - branch_metric(syms, t, st) >= min_branch_metric(syms, t),
        branch_metric(syms, t, st) <= 1020,
{
    lemma_xor_byte(syms[4 * t]);
    lemma_xor_byte(syms[4 * t + 1]);
    lemma_xor_byte(syms[4 * t + 2]);
    lemma_xor_byte(syms[4 * t + 3]);
}

/// The received symbols of step `t` are the clean coded bits of the
/// register: 0 for a 0, 254 or 255 for a 1.
pub open spec fn clean_step(bits: Seq<u8>, n: nat, syms: Seq<u8>, t: int) -> bool {
    forall|r: int| 0 <= r < 4 ==> {
        let p = #[trigger] parity_spec(sim_reg(bits, n, t) & poly(r));
        &&& (p != 0 ==> syms[4 * t + r] >= 254)
        &&& (p == 0 ==> syms[4 * t + r] == 0)
    }
}

proof fn lemma_parity_bit(x: u32)
    ensures parity_spec(x) <= 1,
{
    bv_small(x, 0, 0, 0, 0);
}

/// One coded bit of the true branch costs the least possible.
proof fn lemma_true_symbol(bits: Seq<u8>, n: nat, syms: Seq<u8>, t: int, r: int)
    requires
        forall|k: int| 0 <= k < n ==> #[trigger] bits[k] <= 1,
        0 <= t, 0 <= r < 4, 4 * t + 3 < syms.len(),
        clean_step(bits, n, syms, t),
    ensures ({
        let s = enc_state(bits, n, t);
        let i = s % 32;
        let h = s / 32;
        let b = enc_input(bits, n, t);
        let x = syms[4 * t + r];
        let bs = branch_symbol(r, i as int);
        &&& (h == b ==> (bs ^ x) as int == minsym(x))
        &&& (h != b ==> 255 - (bs ^ x) as int == minsym(x))
        &&& minsym(x) <= 1
    }),
{
    lemma_sim_reg_shift(bits, n, t);
    let s = enc_state(bits, n, t);
    let i = s % 32;
    let h = s / 32;
    let b = enc_input(bits, n, t);
    let prev = sim_reg(bits, n, t - 1);
    bv_small(prev, 0, 0, 0, 0);
    assert(b <= 1);
    assert(sim_reg(bits, n, t) == (2 * i + 64 * h + b) as u32);
    lemma_branch_parity(i, h, b, r);
    let x = syms[4 * t + r];
    lemma_xor_byte(x);
    lemma_parity_bit(((2 * i) as u32) & poly(r));
    lemma_parity_bit(sim_reg(bits, n, t) & poly(r));
    let q = parity_spec(((2 * i) as u32) & poly(r));
    let p = parity_spec(sim_reg(bits, n, t) & poly(r));
    assert(p == q ^ h ^ b);
    assert(q <= 1 && h <= 1 && b <= 1);
    bv_small(0, q, h, b, 0);
}

/// The branch of the true path at step `t` costs the least possible, at
/// most 4; the other branch into the same state costs at least 1016.
proof fn lemma_true_branch(bits: Seq<u8>, n: nat, syms: Seq<u8>, t: int)
    requires
        forall|k: int| 0 <= k < n ==> #[trigger] bits[k] <= 1,
        0 <= t, 4 * t + 3 < syms.len(),
        clean_step(bits, n, syms, t),
    ensures ({
        let s = enc_state(bits, n, t);
        let m = branch_metric(syms, t, (s % 32) as int);
        &&& (s / 32 == enc_input(bits, n, t) ==> m == min_branch_metric(syms, t))
        &&& (s / 32 != enc_input(bits, n, t) ==> 1020 - m == min_branch_metric(syms, t))
        &&& min_branch_metric(syms, t) <= 4
    }),
{
    lemma_true_symbol(bits, n, syms, t, 0);
    lemma_true_symbol(bits, n, syms, t, 1);
    lemma_true_symbol(bits, n, syms, t, 2);
    lemma_true_symbol(bits, n, syms, t, 3);
}

proof fn lemma_seq_min_bounds(m: Seq<u32>, j: int, lo: int)
    requires
        m.len() >= 1,
        0 <= j < m.len(),
        forall|k: int| 0 <= k < m.len() ==> #[trigger] m[k] >= lo,
    ensures
        seq_min(m) <= m[j],
        seq_min(m) >= lo,
    decreases m.len(),
{
    if m.len() > 1 {
        let d = m.drop_last();
        if j < m.len() - 1 {
            lemma_seq_min_bounds(d, j, lo);
        } else {
            lemma_seq_min_bounds(d, 0, lo);
        }
    }
}

/// All coded bits of the trellis arrive clean.
pub open spec fn clean_codeword(bits: Seq<u8>, n: nat, syms: Seq<u8>) -> bool {
    forall|t: int| 0 <= t < n + 6 ==> #[trigger] clean_step(bits, n, syms, t)
}

/// `2^k` for a shift `k` of a 6-bit trellis state.
pub open spec fn p2(k: int) -> int {
    if k <= 0 { 1 } else if k == 1 { 2 } else if k == 2 { 4 } else if k == 3 { 8 }
    else if k == 4 { 16 } else if k == 5 { 32 } else { 64 }
}

/// States `j` and `s` agree above their `k` lowest bits: `j` is reached in
/// `k` steps from the state that led to `s` `k` steps earlier.
pub open spec fn shares_high_bits(j: int, s: int, k: int) -> bool {
    j / p2(k) == s / p2(k)
}

proof fn lemma_shift_half(x: int, k: int)
    requires 0 <= x < 64, 1 <= k <= 6,
    ensures x / p2(k) == (x / 2) / p2(k - 1),
{
    if k == 1 {
    } else if k == 2 {
        assert(x / 4 == (x / 2) / 2);
    } else if k == 3 {
        assert(x / 8 == (x / 2) / 4);
    } else if k == 4 {
        assert(x / 16 == (x / 2) / 8);
    } else if k == 5 {
        assert(x / 32 == (x / 2) / 16);
    } else {
        assert(x / 64 == (x / 2) / 32);
    }
}

proof fn lemma_shift_top(x: int, h: int, k: int)
    requires 0 <= x < 32, 0 <= h <= 1, 0 <= k <= 5,
    ensures (x + 32 * h) / p2(k) == x / p2(k) + h * (32int / p2(k)),
{
    if h == 1 {
        if k == 0 {
        } else if k == 1 {
            assert((x + 32) / 2 == x / 2 + 16);
        } else if k == 2 {
            assert((x + 32) / 4 == x / 4 + 8);
        } else if k == 3 {
            assert((x + 32) / 8 == x / 8 + 4);
        } else if k == 4 {
            assert((x + 32) / 16 == x / 16 + 2);
        } else {
            assert((x + 32) / 32 == x / 32 + 1);
        }
    }
}

/// The predecessor of `q` that keeps the top bit of `sp` shares one bit
/// fewer with `sp` than `q` shares with the successor of `sp`.
proof fn lemma_predecessor_shares(q: int, sp: int, b: int, k: int)
    requires
        0 <= q < 64, 0 <= sp < 64, 0 <= b <= 1, 1 <= k <= 6,
        shares_high_bits(q, 2 * (sp % 32) + b, k),
    ensures
        shares_high_bits(q / 2 + 32 * (sp / 32), sp, k - 1),
{
    let h = sp / 32;
    let i = sp % 32;
    let st = 2 * i + b;
    assert(sp == i + 32 * h);
    assert(st / 2 == i);
    lemma_shift_half(q, k);
    lemma_shift_half(st, k);
    assert((q / 2) / p2(k - 1) == i / p2(k - 1));
    lemma_shift_top(q / 2, h, k - 1);
    lemma_shift_top(i, h, k - 1);
}

/// One add-compare-select step keeps neither candidate of a state below
/// the survivor: the new metric of `j` is at most that of either
/// predecessor plus a full branch.
proof fn lemma_acs_at_most(old: Seq<u32>, syms: Seq<u8>, t: int, j: int)
    requires
        old.len() == 64, 0 <= j < 64, 0 <= t, 4 * t + 3 < syms.len(),
        old[j / 2] + 1020 < 0x1_0000_0000,
        old[j / 2 + 32] + 1020 < 0x1_0000_0000,
    ensures ({
        let i = j / 2;
        let m = branch_metric(syms, t, i);
        let c = (1020 - m) as u32;
        let raw = acs_step(old, syms, t)[j];
        &&& wadd(old[i], m) == old[i] + m
        &&& wadd(old[i], c) == old[i] + c
        &&& wadd(old[i + 32], m) == old[i + 32] + m
        &&& wadd(old[i + 32], c) == old[i + 32] + c
        &&& raw <= old[i] + 1020
        &&& raw <= old[i + 32] + 1020
    }),
{
    lemma_branch_at_least_min(syms, t, j / 2);
}

#[verifier::spinoff_prover]
#[verifier::rlimit(80)]
/// Along a clean codeword the state of the true path keeps the smallest
/// path metric, ahead of every other state by at least 1000, and at most
/// 30000 thanks to renormalisation; a state that agrees with it above its
/// `k` lowest bits trails it by at most `1020 k + 1000`. So no metric ever
/// exceeds 37120, however long the frame.
proof fn lemma_true_path_metrics(bits: Seq<u8>, n: nat, syms: Seq<u8>, t: nat)
    requires
        forall|k: int| 0 <= k < n ==> #[trigger] bits[k] <= 1,
        syms.len() == total_symbols(n),
        clean_codeword(bits, n, syms),
        t <= n + 6,
    ensures ({
        let mm = path_metrics(syms, t);
        let st = enc_state(bits, n, t as int);
        &&& mm.len() == 64
        &&& st < 64
        &&& mm[st as int] <= 30000
        &&& forall|j: int| 0 <= j < 64 && j != st ==> #[trigger] mm[j] >= mm[st as int] + 1000
        &&& forall|j: int, k: int| 0 <= j < 64 && 0 <= k <= 6 && #[trigger] shares_high_bits(j, st as int, k)
                ==> mm[j] <= mm[st as int] + 1020 * k + 1000
        &&& forall|j: int| 0 <= j < 64 ==> #[trigger] mm[j] <= 37120
    }),
    decreases t,
{
    let st = enc_state(bits, n, t as int);
    let prev_reg = sim_reg(bits, n, t - 1);
    bv_small(prev_reg, 0, 0, 0, 0);
    if t == 0 {
        assert(prev_reg == 0);
        assert(st == 0);
        let mm = path_metrics(syms, t);
        assert forall|j: int| 0 <= j < 64 implies #[trigger] mm[j] <= 37120 by {
            assert(shares_high_bits(j, st as int, 6));
        }
    } else {
        let tp = (t - 1) as nat;
        lemma_true_path_metrics(bits, n, syms, tp);
        let old = path_metrics(syms, tp);
        let sp = enc_state(bits, n, tp as int);
        let b = enc_input(bits, n, tp as int);
        lemma_sim_reg_shift(bits, n, tp as int);
        assert(b <= 1);
        let reg = sim_reg(bits, n, tp as int);
        assert(reg == (2 * sp + b) as u32);
        assert(st == reg & 63u32);
        let is = sp % 32;
        let h = sp / 32;
        bv_state(sp, b, reg);
        assert(st == 2 * is + b && st / 2 == is);
        assert(clean_step(bits, n, syms, tp as int));
        lemma_true_branch(bits, n, syms, tp as int);
        let mt = min_branch_metric(syms, tp as int);
        let raw = acs_step(old, syms, tp as int);
        // no candidate wraps around
        assert forall|j: int| 0 <= j < 64 implies #[trigger] raw[j] <= old[j / 2] + 1020
            && raw[j] <= old[j / 2 + 32] + 1020 by {
            lemma_acs_at_most(old, syms, tp as int, j);
        }
        // the true state
        assert(raw[st as int] == old[sp as int] + mt) by {
            lemma_acs_at_most(old, syms, tp as int, st as int);
            lemma_branch_at_least_min(syms, tp as int, is as int);
            let other = if h == 0 { sp + 32 } else { sp - 32 };
            assert(old[other as int] >= old[sp as int] + 1000);
        }
        // every other state
        assert forall|j: int| 0 <= j < 64 && j != st implies #[trigger] raw[j] >= raw[st as int] + 1000 by {
            let i = j / 2;
            lemma_acs_at_most(old, syms, tp as int, j);
            lemma_branch_at_least_min(syms, tp as int, i);
            if i == is {
                // the other successor of the true state
                assert(j == 2 * is + 1 - b);
                let other = if h == 0 { sp + 32 } else { sp - 32 };
                assert(old[other as int] >= old[sp as int] + 1000);
            } else {
                assert(i != sp && i + 32 != sp);
                assert(old[i] >= old[sp as int] + 1000);
                assert(old[i + 32] >= old[sp as int] + 1000);
            }
        }
        // states that agree with the true state above their k lowest bits
        assert forall|j: int, k: int| 0 <= j < 64 && 1 <= k <= 6 && #[trigger] shares_high_bits(j, st as int, k)
            implies raw[j] <= raw[st as int] + 1020 * k + 1000 by {
            lemma_predecessor_shares(j, sp as int, b as int, k);
            let p = j / 2 + 32 * h;
            assert(shares_high_bits(p, sp as int, k - 1));
            assert(old[p] <= old[sp as int] + 1020 * (k - 1) + 1000);
            assert(raw[j] <= old[p] + 1020);
        }
        lemma_seq_min_bounds(raw, st as int, raw[st as int] as int);
        let mn = seq_min(raw);
        assert(mn == raw[st as int]);
        let mm = path_metrics(syms, t);
        assert(mm == renormalized(raw));
        let d: int = if mn > 30000 { mn as int } else { 0 };
        assert forall|j: int| 0 <= j < 64 implies #[trigger] mm[j] == raw[j] - d by {}
        assert(mm[st as int] <= 30000);
        assert forall|j: int, k: int| 0 <= j < 64 && 0 <= k <= 6 && #[trigger] shares_high_bits(j, st as int, k)
            implies mm[j] <= mm[st as int] + 1020 * k + 1000 by {
            if k == 0 {
                assert(j == st);
            } else {
                assert(raw[j] <= raw[st as int] + 1020 * k + 1000);
            }
        }
        assert forall|j: int| 0 <= j < 64 implies #[trigger] mm[j] <= 37120 by {
            assert(shares_high_bits(j, st as int, 6));
        }
    }
}

/// At every step of a clean codeword the survivor of the next true state
/// is the true state.
proof fn lemma_true_survivor(bits: Seq<u8>, n: nat, syms: Seq<u8>, t: nat)
    requires
        forall|k: int| 0 <= k < n ==> #[trigger] bits[k] <= 1,
        syms.len() == total_symbols(n),
        clean_codeword(bits, n, syms),
        t < n + 6,
    ensures
        survivor(syms, t, enc_state(bits, n, (t + 1) as int) as int) == (enc_state(bits, n, t as int) >= 32),
{
    lemma_true_path_metrics(bits, n, syms, t);
    let old = path_metrics(syms, t);
    let sp = enc_state(bits, n, t as int);
    let st = enc_state(bits, n, (t + 1) as int);
    let b = enc_input(bits, n, t as int);
    lemma_sim_reg_shift(bits, n, t as int);
    assert(b <= 1);
    let reg = sim_reg(bits, n, t as int);
    assert(reg == (2 * sp + b) as u32);
    assert(st == reg & 63u32);
    let is = sp % 32;
    let h = sp / 32;
    bv_small(sim_reg(bits, n, t - 1), 0, 0, 0, 0);
    bv_state(sp, b, reg);
    assert(st == 2 * is + b && st / 2 == is);
    assert(clean_step(bits, n, syms, t as int));
    lemma_true_branch(bits, n, syms, t as int);
    lemma_branch_at_least_min(syms, t as int, is as int);
    assert(old[is as int] <= 37120);
    assert(old[is + 32] <= 37120);
    let other = if h == 0 { sp + 32 } else { sp - 32 };
    assert(old[other as int] >= old[sp as int] + 1000);
}

/// The trace-back of a clean codeword follows the true path.
proof fn lemma_true_traceback(bits: Seq<u8>, n: nat, syms: Seq<u8>, i: nat)
    requires
        forall|k: int| 0 <= k < n ==> #[trigger] bits[k] <= 1,
        syms.len() == total_symbols(n),
        clean_codeword(bits, n, syms),
        i <= n,
    ensures
        tb_state(syms, n, i) == enc_state(bits, n, (i + 6) as int),
    decreases n - i,
{
    let s6 = enc_state(bits, n, (i + 6) as int);
    if i == n {
        lemma_state_oldest_bit(bits, n, (n + 5) as int, 0);
        lemma_state_oldest_bit(bits, n, (n + 4) as int, 1);
        lemma_state_oldest_bit(bits, n, (n + 3) as int, 2);
        lemma_state_oldest_bit(bits, n, (n + 2) as int, 3);
        lemma_state_oldest_bit(bits, n, (n + 1) as int, 4);
        lemma_state_oldest_bit(bits, n, n as int, 5);
        let prev = sim_reg(bits, n, (n + 5) as int);
        assert(s6 == prev & 63u32);
        bv_small(prev, 0, 0, 0, s6);
        assert(s6 == 0);
    } else {
        lemma_true_traceback(bits, n, syms, i + 1);
        lemma_true_survivor(bits, n, syms, i + 6);
        let s7 = enc_state(bits, n, (i + 7) as int);
        let b = enc_input(bits, n, (i + 6) as int);
        lemma_sim_reg_shift(bits, n, (i + 6) as int);
        assert(b <= 1);
        let reg = sim_reg(bits, n, (i + 6) as int);
        assert(reg == (2 * s6 + b) as u32);
        assert(s7 == reg & 63u32);
        let prev = sim_reg(bits, n, (i + 5) as int);
        bv_small(prev, 0, 0, 0, 0);
        bv_state(s6, b, reg);
    }
}

/// A clean codeword decodes to its message: when every coded bit of the
/// rate 1/4, K = 7 encoding of `bits` (followed by six zero tail bits)
/// arrives as a confident soft bit — at least 127 for a 1, at most −127
/// for a 0 — the decoder returns exactly `bits`, whatever its length.
pub proof fn lemma_clean_codeword_decodes(bits: Seq<u8>, input: Seq<i16>)
    requires
        forall|k: int| 0 <= k < bits.len() ==> #[trigger] bits[k] <= 1,
        input.len() >= total_symbols(bits.len()),
        forall|q: int| 0 <= q < total_symbols(bits.len()) ==> {
            let p = #[trigger] parity_spec(sim_reg(bits, bits.len(), q / 4) & poly(q % 4));
            &&& (p != 0 ==> input[q] >= 127)
            &&& (p == 0 ==> input[q] <= -127)
        },
    ensures
        viterbi_decode(bits.len(), input) == bits,
{
    let n = bits.len();
    let syms = symbols_of(input, n);
    assert forall|t: int| 0 <= t < n + 6 implies #[trigger] clean_step(bits, n, syms, t) by {
        assert forall|r: int| 0 <= r < 4 implies {
            let p = #[trigger] parity_spec(sim_reg(bits, n, t) & poly(r));
            &&& (p != 0 ==> syms[4 * t + r] >= 254)
            &&& (p == 0 ==> syms[4 * t + r] == 0)
        } by {
            let q = 4 * t + r;
            assert(q / 4 == t && q % 4 == r);
            assert(parity_spec(sim_reg(bits, n, q / 4) & poly(q % 4)) == parity_spec(sim_reg(bits, n, t) & poly(r)));
        }
    }
    assert forall|i: int| 0 <= i < n implies #[trigger] viterbi_decode(n, input)[i] == bits[i] by {
        lemma_true_traceback(bits, n, syms, (i + 1) as nat);
        lemma_true_survivor(bits, n, syms, (i + 6) as nat);
        lemma_state_oldest_bit(bits, n, i, 5);
        let s6 = enc_state(bits, n, (i + 6) as int);
        let prev = sim_reg(bits, n, (i + 5) as int);
        bv_small(prev, 0, 0, 0, 0);
        bv_state(s6, 0, (2 * s6) as u32);
    }
    assert(viterbi_decode(n, input) =~= bits);
}

/// The register of an all-zero message stays zero.
pub(crate) proof fn lemma_zero_register(n: nat, i: int)
    ensures
        sim_reg(Seq::new(n, |k: int| 0u8), n, i) == 0,
    decreases i + 1,
{
    if i >= 0 {
        lemma_zero_register(n, i - 1);
        assert(((0u32 << 1u32) | 0u32) & 127u32 == 0u32) by (bit_vector);
    }
}

proof fn bv_reg_mask(e: u32, sr: u32, b: u32, c: u8)
    by (bit_vector)
    requires e < 256u32, sr <= 127u32, b <= 1u32, c <= 1u8,
    ensures
        e & 127u32 == sr ==> ((2 * e + b) % 256) as u32 & 127u32 == ((sr << 1u32) | b) & 127u32,
        forall|p: u32| p <= 127u32 ==> (e & p) == ((e & 127u32) & p),
        c & 1u8 == c,
        0u32 & 127u32 == 0u32,
{
}

/// The decoder's re-encoding register and the encoder's register hold the
/// same last seven inputs.
proof fn lemma_enc_reg_matches(bits: Seq<u8>, n: nat, i: int)
    requires forall|k: int| 0 <= k < n ==> #[trigger] bits[k] <= 1,
    ensures
        enc_reg(bits, n, i) < 256,
        sim_reg(bits, n, i) <= 127,
        (enc_reg(bits, n, i) as u32) & 127u32 == sim_reg(bits, n, i),
    decreases i + 1,
{
    lemma_sim_reg_shift(bits, n, i);
    if i < 0 {
        bv_reg_mask(0, 0, 0, 0);
    } else {
        lemma_enc_reg_matches(bits, n, i - 1);
        lemma_sim_reg_shift(bits, n, i - 1);
        let e = enc_reg(bits, n, i - 1) as u32;
        let sr = sim_reg(bits, n, i - 1);
        let b = enc_input(bits, n, i);
        assert(b <= 1);
        if i < n {
            bv_reg_mask(e, sr, b, bits[i]);
        } else {
            bv_reg_mask(e, sr, b, 0);
        }
        assert(enc_reg(bits, n, i) == (enc_reg(bits, n, i - 1) * 2 + b) % 256);
    }
}

/// A clean codeword shows no bit errors against the message it encodes:
/// re-encoding the message and comparing with the signs of the received
/// soft bits, on any set of transmitted positions, counts no error.
pub proof fn lemma_clean_codeword_has_no_bit_errors(bits: Seq<u8>, input: Seq<i16>, puncture: Seq<bool>, m: nat)
    requires
        forall|k: int| 0 <= k < bits.len() ==> #[trigger] bits[k] <= 1,
        m <= total_symbols(bits.len()),
        forall|q: int| 0 <= q < total_symbols(bits.len()) && q < input.len() ==> {
            let p = #[trigger] parity_spec(sim_reg(bits, bits.len(), q / 4) & poly(q % 4));
            &&& (p != 0 ==> input[q] >= 127)
            &&& (p == 0 ==> input[q] <= -127)
        },
    ensures
        ber_counts(input, puncture, bits, bits.len(), m).1 == 0,
    decreases m,
{
    let n = bits.len();
    if m > 0 {
        lemma_clean_codeword_has_no_bit_errors(bits, input, puncture, (m - 1) as nat);
        let q = m - 1;
        if ber_checked(input, puncture, q) {
            lemma_enc_reg_matches(bits, n, q / 4);
            let e = enc_reg(bits, n, q / 4) as u32;
            bv_reg_mask(e, sim_reg(bits, n, q / 4), 0, 0);
            assert(poly(q % 4) <= 127);
            assert((e & poly(q % 4)) == (sim_reg(bits, n, q / 4) & poly(q % 4)));
            assert(!ber_error(input, puncture, bits, n, q));
        }
    }
}

} // verus!
