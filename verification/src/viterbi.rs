//! Soft-decision Viterbi decoder for the DAB mother code
//! (rate 1/4, constraint length 7, ETSI EN 300 401 §11.1).
//!
//! The decoder keeps the "spiral" layout: a branch table grouped by coder
//! output, two path-metric banks, and survivor decisions packed two words
//! per trellis step. Its result is specified by the add-compare-select
//! recursion (`path_metrics`, `survivor`) followed by the trace-back from
//! state 0 (`decoded_bit`).

use vstd::prelude::*;

verus! {

pub const K: usize = 7;
pub const RATE: usize = 4;
pub const NUM_STATES: usize = 64;
/// Generator polynomials 0155, 0117, 0123, 0155 (octal).
pub const POLYS: [i32; 4] = [0o155, 0o117, 0o123, 0o155];
pub const INITIAL_PATH_METRIC: u32 = 1000;
pub const RENORMALIZE_THRESHOLD: u32 = 30000;
pub const SOFT_DECISION_BIAS: i32 = 127;
/// Neutral soft symbol used where the input is too short.
pub const NEUTRAL_SOFT_SYMBOL: u8 = 127;
/// Shift between a trellis state and the chain-back register.
pub const ADD_SHIFT: usize = 2;
pub const SUB_SHIFT: usize = 0;
/// Largest branch metric: four symbols of 255.
pub const MAX_BRANCH_METRIC: u32 = 1020;

// ── specification ────────────────────────────────────────────────────────

/// Generator polynomial of coder output `r`.
pub open spec fn poly(r: int) -> u32 {
    if r == 0 { 109 } else if r == 1 { 79 } else if r == 2 { 83 } else { 109 }
}

/// XOR of all 32 bits of `x`.
pub open spec fn parity_spec(x: u32) -> u32 {
    let a = x ^ (x >> 16u32);
    let b = a ^ (a >> 8u32);
    let c = b ^ (b >> 4u32);
    let d = c ^ (c >> 2u32);
    let e = d ^ (d >> 1u32);
    e & 1u32
}

/// Expected symbol (0 or 255) of coder output `r` on the branch leaving the
/// butterfly of state `st` (0..32) with input 0.
pub open spec fn branch_symbol(r: int, st: int) -> u8 {
    if parity_spec(((2 * st) as u32) & poly(r)) != 0 { 255 } else { 0 }
}

/// Soft bit (−127 strong 0 … +127 strong 1) biased and clamped to 0..255.
pub open spec fn soft_symbol(x: i16) -> u8 {
    let v = x + 127;
    if v < 0 { 0 } else if v > 255 { 255 } else { v as u8 }
}

/// Number of soft symbols the trellis of `frame_bits` data bits consumes.
pub open spec fn total_symbols(frame_bits: nat) -> nat {
    4 * (frame_bits + 6)
}

/// Symbol `q` fed to the trellis: taken from the input where present,
/// neutral beyond it.
pub open spec fn symbol_at(input: Seq<i16>, frame_bits: nat, q: int) -> u8 {
    if q < input.len() && q < total_symbols(frame_bits) { soft_symbol(input[q]) } else { 127 }
}

pub open spec fn symbols_of(input: Seq<i16>, frame_bits: nat) -> Seq<u8> {
    Seq::new(total_symbols(frame_bits), |q: int| symbol_at(input, frame_bits, q))
}

/// Distance between the received symbols of step `s` and the branch of butterfly `st`.
pub open spec fn branch_metric(syms: Seq<u8>, s: int, st: int) -> u32 {
    ((branch_symbol(0, st) ^ syms[4 * s]) as u32 + (branch_symbol(1, st) ^ syms[4 * s + 1]) as u32
        + (branch_symbol(2, st) ^ syms[4 * s + 2]) as u32 + (branch_symbol(3, st) ^ syms[4 * s
        + 3]) as u32) as u32
}

pub open spec fn wadd(a: u32, b: u32) -> u32 {
    vstd::wrapping::u32_specs::wrapping_add(a, b)
}

/// Survivor decision for new state `j` at step `s`: true when the path
/// through the upper predecessor (`j/2 + 32`) is kept.
pub open spec fn acs_decision(old: Seq<u32>, syms: Seq<u8>, s: int, j: int) -> bool {
    let i = j / 2;
    let m = branch_metric(syms, s, i);
    let c = (1020 - m) as u32;
    if j % 2 == 0 {
        wadd(old[i], m) > wadd(old[i + 32], c)
    } else {
        wadd(old[i], c) > wadd(old[i + 32], m)
    }
}

/// Path metric of new state `j` after the add-compare-select of step `s`.
pub open spec fn acs_metric(old: Seq<u32>, syms: Seq<u8>, s: int, j: int) -> u32 {
    let i = j / 2;
    let m = branch_metric(syms, s, i);
    let c = (1020 - m) as u32;
    if j % 2 == 0 {
        if acs_decision(old, syms, s, j) { wadd(old[i + 32], c) } else { wadd(old[i], m) }
    } else {
        if acs_decision(old, syms, s, j) { wadd(old[i + 32], m) } else { wadd(old[i], c) }
    }
}

pub open spec fn acs_step(old: Seq<u32>, syms: Seq<u8>, s: int) -> Seq<u32> {
    Seq::new(64, |j: int| acs_metric(old, syms, s, j))
}

/// Smallest element of a non-empty sequence.
pub open spec fn seq_min(m: Seq<u32>) -> u32
    decreases m.len(),
{
    if m.len() <= 1 {
        m[0]
    } else {
        let a = seq_min(m.drop_last());
        if m.last() < a { m.last() } else { a }
    }
}

/// Metrics after renormalisation: the minimum is subtracted once it has
/// drifted above the threshold.
pub open spec fn renormalized(m: Seq<u32>) -> Seq<u32> {
    let mn = seq_min(m);
    if mn > 30000 { Seq::new(m.len(), |j: int| (m[j] - mn) as u32) } else { m }
}

pub open spec fn initial_metrics() -> Seq<u32> {
    Seq::new(64, |j: int| if j == 0 { 0u32 } else { 1000u32 })
}

/// Path metrics before trellis step `s`.
pub open spec fn path_metrics(syms: Seq<u8>, s: nat) -> Seq<u32>
    decreases s,
{
    if s == 0 {
        initial_metrics()
    } else {
        renormalized(acs_step(path_metrics(syms, (s - 1) as nat), syms, s - 1))
    }
}

/// Survivor decision of state `j` at trellis step `s`.
pub open spec fn survivor(syms: Seq<u8>, s: nat, j: int) -> bool {
    acs_decision(path_metrics(syms, s), syms, s as int, j)
}

/// Trellis state reached by the trace-back just before data bit `i` is
/// decided (the trace-back starts in state 0 after the last bit).
pub open spec fn tb_state(syms: Seq<u8>, frame_bits: nat, i: nat) -> u32
    decreases frame_bits - i,
{
    if i >= frame_bits {
        0
    } else {
        let nxt = tb_state(syms, frame_bits, i + 1);
        let k: u32 = if survivor(syms, i + 6, nxt as int) { 1 } else { 0 };
        ((nxt >> 1u32) | (k << 5u32)) & 63u32
    }
}

/// Decoded data bit `i`.
pub open spec fn decoded_bit(syms: Seq<u8>, frame_bits: nat, i: nat) -> u8 {
    if survivor(syms, i + 6, tb_state(syms, frame_bits, i + 1) as int) { 1 } else { 0 }
}

/// Decoded bits for a given sequence of trellis symbols.
pub open spec fn viterbi_decode_syms(syms: Seq<u8>, frame_bits: nat) -> Seq<u8> {
    Seq::new(frame_bits, |i: int| decoded_bit(syms, frame_bits, i as nat))
}

/// The bits the decoder delivers for `input` when it decodes `frame_bits` bits.
pub open spec fn viterbi_decode(frame_bits: nat, input: Seq<i16>) -> Seq<u8> {
    viterbi_decode_syms(symbols_of(input, frame_bits), frame_bits)
}

/// The output of decoding `input` into a frame of `frame_bits` bits: the
/// first `frame_bits` positions hold the decoded bits, the rest of the
/// output is unchanged. Nothing else enters: not what the decoder decoded
/// before.
pub open spec fn decoded_frame(frame_bits: nat, input: Seq<i16>, out_before: Seq<u8>, out_after: Seq<u8>) -> bool {
    &&& out_after.len() == out_before.len()
    &&& forall|i: int| 0 <= i < out_before.len() ==> #[trigger] out_after[i] == (
            if i < frame_bits { viterbi_decode(frame_bits, input)[i] } else { out_before[i] })
}

/// Encoder register (last eight input bits) after bit position `i` of the
/// re-encoded frame: the decoded bits followed by K−1 zero tail bits.
pub open spec fn enc_reg(bits: Seq<u8>, nbits: nat, i: int) -> nat
    decreases i + 1,
{
    if i < 0 {
        0
    } else {
        let b: nat = if i < nbits { (bits[i] & 1u8) as nat } else { 0 };
        (enc_reg(bits, nbits, i - 1) * 2 + b) % 256
    }
}

/// Whether coded bit `q` (position `q / 4`, coder output `q % 4`) is
/// transmitted and received, and whether its received sign disagrees with
/// the re-encoded bit.
pub open spec fn ber_checked(input: Seq<i16>, puncture: Seq<bool>, q: int) -> bool {
    q < input.len() && q < puncture.len() && puncture[q]
}

pub open spec fn ber_error(input: Seq<i16>, puncture: Seq<bool>, bits: Seq<u8>, nbits: nat, q: int) -> bool {
    ber_checked(input, puncture, q)
        && ((input[q] > 0) != (parity_spec((enc_reg(bits, nbits, q / 4) as u32) & poly(q % 4)) != 0))
}

/// (checked bits, bit errors) over the first `n` coded bits.
pub open spec fn ber_counts(input: Seq<i16>, puncture: Seq<bool>, bits: Seq<u8>, nbits: nat, n: nat) -> (nat, nat)
    decreases n,
{
    if n == 0 {
        (0, 0)
    } else {
        let prev = ber_counts(input, puncture, bits, nbits, (n - 1) as nat);
        let q = n - 1;
        (prev.0 + if ber_checked(input, puncture, q) { 1nat } else { 0 },
         prev.1 + if ber_error(input, puncture, bits, nbits, q) { 1nat } else { 0 })
    }
}

/// Bit `j % 32` of word `2 s + j / 32`: where the survivor of state `j` at step `s` is stored.
pub open spec fn packed_decision(words: Seq<u32>, s: int, j: int) -> u32 {
    (words[2 * s + j / 32] >> ((j % 32) as u32)) & 1u32
}

// ── helpers ──────────────────────────────────────────────────────────────

/// XOR of all bits of `x` (0 or 1).
pub fn parity(x: i32) -> (p: i32)
    ensures p == parity_spec(x as u32), 0 <= p <= 1,
{
    let u = x as u32;
    let a = u ^ (u >> 16);
    let b = a ^ (a >> 8);
    let c = b ^ (b >> 4);
    let d = c ^ (c >> 2);
    let e = d ^ (d >> 1);
    let r = e & 1;
    assert(r <= 1) by (bit_vector) requires r == e & 1u32;
    r as i32
}

/// Maps a signed soft bit to the unsigned symbol the trellis works on.
pub fn map_soft_decision_to_symbol(inp: i16) -> (s: u8)
    ensures s == soft_symbol(inp),
{
    let v = inp as i32 + SOFT_DECISION_BIAS;
    if v < 0 { 0 } else if v > 255 { 255 } else { v as u8 }
}

/// Soft symbols needed for `frame_bits` data bits (rate 1/4 plus K−1 tail bits).
pub fn required_soft_input_len(frame_bits: usize) -> (n: usize)
    requires frame_bits + 6 <= usize::MAX / 4,
    ensures n == total_symbols(frame_bits as nat),
{
    RATE * (frame_bits + K - 1)
}

/// Decision words per trellis step (one bit per state).
pub fn decision_words_per_step() -> (n: usize)
    ensures n == 2,
{
    (NUM_STATES + 31) / 32
}

/// Index of coder output `rate_idx` of butterfly `state` in the branch table.
pub fn branch_table_index(rate_idx: usize, state: usize) -> (n: usize)
    requires rate_idx < 4, state < 32,
    ensures n == rate_idx * 32 + state, n < 128,
{
    rate_idx * (NUM_STATES / 2) + state
}

/// Branch metric of butterfly `state` against the four symbols at `sym_base`.
pub fn compute_branch_metric(branchtab: &[u8], symbols: &[u8], sym_base: usize, state: usize) -> (m: u32)
    requires
        branchtab.len() == 128,
        state < 32,
        sym_base + 4 <= symbols.len(),
    ensures
        m == (branchtab@[state as int] ^ symbols@[sym_base as int]) as u32
            + (branchtab@[32 + state] ^ symbols@[sym_base + 1]) as u32
            + (branchtab@[64 + state] ^ symbols@[sym_base + 2]) as u32
            + (branchtab@[96 + state] ^ symbols@[sym_base + 3]) as u32,
        m <= 1020,
{
    let mut metric: u32 = 0;
    let mut rate_idx: usize = 0;
    while rate_idx < RATE
        invariant
            rate_idx <= 4,
            branchtab.len() == 128,
            state < 32,
            sym_base + 4 <= symbols.len(),
            metric <= 255 * rate_idx,
            metric == (if rate_idx > 0 { (branchtab@[state as int] ^ symbols@[sym_base as int]) as int } else { 0 })
                + (if rate_idx > 1 { (branchtab@[32 + state] ^ symbols@[sym_base + 1]) as int } else { 0 })
                + (if rate_idx > 2 { (branchtab@[64 + state] ^ symbols@[sym_base + 2]) as int } else { 0 })
                + (if rate_idx > 3 { (branchtab@[96 + state] ^ symbols@[sym_base + 3]) as int } else { 0 }),
        decreases 4 - rate_idx,
    {
        let x = branchtab[branch_table_index(rate_idx, state)] ^ symbols[sym_base + rate_idx];
        metric = metric + x as u32;
        rate_idx = rate_idx + 1;
    }
    metric
}

proof fn lemma_store_bits(w: u32, d0: u32, d1: u32, sh: u32, p: u32)
    by (bit_vector)
    requires d0 <= 1, d1 <= 1, sh <= 30, p < 32,
    ensures
        ((w | ((d0 | (d1 << 1u32)) << sh)) >> p) & 1u32 == (if p == sh {
            d0 | ((w >> p) & 1u32)
        } else if p == sh + 1 {
            d1 | ((w >> p) & 1u32)
        } else {
            (w >> p) & 1u32
        }),
{
}

/// Records the survivor decisions of the two new states `2 state` and
/// `2 state + 1` of one butterfly in the packed decision words.
pub fn store_survivor_pair(decisions: &mut [u32], dec_offset: usize, state: usize, d0: u32, d1: u32)
    requires
        state < 32,
        d0 <= 1, d1 <= 1,
        dec_offset + 2 <= old(decisions)@.len(),
    ensures
        final(decisions)@.len() == old(decisions)@.len(),
        forall|w: int| 0 <= w < old(decisions)@.len() && w != dec_offset + state / 16
            ==> final(decisions)@[w] == old(decisions)@[w],
        forall|p: u32| p < 32 ==> ((#[trigger] (final(decisions)@[dec_offset + state / 16] >> p)) & 1u32) == (
            if p == (2 * state) % 32 {
                d0 | ((old(decisions)@[dec_offset + state / 16] >> p) & 1u32)
            } else if p == (2 * state) % 32 + 1 {
                d1 | ((old(decisions)@[dec_offset + state / 16] >> p) & 1u32)
            } else {
                (old(decisions)@[dec_offset + state / 16] >> p) & 1u32
            }),
{
    let word_idx = state / 16;
    assert(word_idx <= 1);
    let n = decisions.len();
    let bit_pos = ((2 * state) % 32) as u32;
    let w = decisions[dec_offset + word_idx];
    let nw = w | ((d0 | (d1 << 1)) << bit_pos);
    decisions[dec_offset + word_idx] = nw;
    proof {
        assert forall|p: u32| p < 32 implies ((#[trigger] (nw >> p)) & 1u32) == (
            if p == bit_pos { d0 | ((w >> p) & 1u32) }
            else if p == bit_pos + 1 { d1 | ((w >> p) & 1u32) }
            else { (w >> p) & 1u32 }) by {
            lemma_store_bits(w, d0, d1, bit_pos, p);
        }
    }
}

/// Survivor bit of the state encoded in the chain-back register `endstate`
/// (state shifted left by two), read from the decision words at `dec_offset`;
/// 0 when the word lies outside the storage.
pub fn traceback_decision_bit(decisions: &[u32], dec_offset: usize, endstate: u32) -> (k: u32)
    ensures
        k <= 1,
        ({
            let bit_idx = (endstate >> 2u32) as int;
            let w = dec_offset + bit_idx / 32;
            k == (if w < decisions@.len() { (decisions@[w] >> ((bit_idx % 32) as u32)) & 1u32 } else { 0 })
        }),
{
    let n = decisions.len();
    let bit_idx = (endstate >> 2) as usize;
    let word_idx = bit_idx / 32;
    let bit_pos = (bit_idx % 32) as u32;
    if dec_offset <= usize::MAX - word_idx && dec_offset + word_idx < decisions.len() {
        let x = decisions[dec_offset + word_idx];
        let r = (x >> bit_pos) & 1;
        assert(r <= 1) by (bit_vector) requires r == (x >> bit_pos) & 1u32;
        r
    } else {
        0
    }
}

/// Renormalisation is due once the best path metric exceeds the threshold.
pub fn should_renormalize(min_metric: u32) -> (b: bool)
    ensures b == (min_metric > RENORMALIZE_THRESHOLD),
{
    min_metric > RENORMALIZE_THRESHOLD
}

proof fn lemma_seq_min_le(m: Seq<u32>, j: int)
    requires 0 <= j < m.len(),
    ensures seq_min(m) <= m[j],
    decreases m.len(),
{
    if m.len() > 1 {
        if j < m.len() - 1 {
            lemma_seq_min_le(m.drop_last(), j);
        }
    }
}


pub(crate) fn poly_of(r: usize) -> (p: u32)
    requires r < 4,
    ensures p == poly(r as int),
{
    if r == 0 { 109 } else if r == 1 { 79 } else if r == 2 { 83 } else { 109 }
}

proof fn lemma_zero_bits()
    ensures forall|p: u32| p < 32 ==> #[trigger] ((0u32 >> p) & 1u32) == 0u32,
{
    assert forall|p: u32| p < 32 implies #[trigger] ((0u32 >> p) & 1u32) == 0u32 by {
        assert((0u32 >> p) & 1u32 == 0u32) by (bit_vector);
    }
}

proof fn lemma_butterfly_bits(before: Seq<u32>, after: Seq<u32>, s: int, i: int, d0: u32, d1: u32, f: spec_fn(int) -> u32)
    requires
        0 <= i < 32,
        0 <= s,
        2 * s + 2 <= before.len(),
        after.len() == before.len(),
        forall|w: int| 0 <= w < before.len() && w != 2 * s + i / 16 ==> after[w] == before[w],
        forall|p: u32| p < 32 ==> ((#[trigger] (after[2 * s + i / 16] >> p)) & 1u32) == (
            if p == (2 * i) % 32 {
                d0 | ((before[2 * s + i / 16] >> p) & 1u32)
            } else if p == (2 * i) % 32 + 1 {
                d1 | ((before[2 * s + i / 16] >> p) & 1u32)
            } else {
                (before[2 * s + i / 16] >> p) & 1u32
            }),
        forall|j: int| 0 <= j < 64 ==> #[trigger] packed_decision(before, s, j) == (if j < 2 * i { f(j) } else { 0u32 }),
        f(2 * i) == d0,
        f(2 * i + 1) == d1,
    ensures
        forall|j: int| 0 <= j < 64 ==> #[trigger] packed_decision(after, s, j) == (if j < 2 * i + 2 { f(j) } else { 0u32 }),
{
    assert forall|j: int| 0 <= j < 64 implies #[trigger] packed_decision(after, s, j) == (if j < 2 * i + 2 { f(j) } else { 0u32 }) by {
        let wj = 2 * s + j / 32;
        let pj = (j % 32) as u32;
        assert(packed_decision(before, s, j) == (if j < 2 * i { f(j) } else { 0u32 }));
        assert(j == 32 * (j / 32) + j % 32);
        assert(2 * i == 32 * (i / 16) + (2 * i) % 32);
        assert((2 * i) % 32 + 1 < 32);
        assert(2 * i + 1 == 32 * (i / 16) + (2 * i) % 32 + 1);
        if j / 32 == i / 16 {
            let w0 = 2 * s + i / 16;
            assert(wj == w0);
            assert(((after[w0] >> pj) & 1u32) == (
                if pj == (2 * i) % 32 { d0 | ((before[w0] >> pj) & 1u32) }
                else if pj == (2 * i) % 32 + 1 { d1 | ((before[w0] >> pj) & 1u32) }
                else { (before[w0] >> pj) & 1u32 }));
            if pj == (2 * i) % 32 {
                assert(j == 2 * i);
                assert((before[w0] >> pj) & 1u32 == 0u32);
                assert(d0 | 0u32 == d0) by (bit_vector);
            } else if pj == (2 * i) % 32 + 1 {
                assert(j == 2 * i + 1);
                assert((before[w0] >> pj) & 1u32 == 0u32);
                assert(d1 | 0u32 == d1) by (bit_vector);
            } else {
                assert(j != 2 * i && j != 2 * i + 1);
            }
        } else {
            assert(after[wj] == before[wj]);
            assert(j != 2 * i && j != 2 * i + 1);
        }
    }
}

/// Rate 1/4, K = 7 Viterbi decoder for frames of a fixed number of data bits.
pub struct ViterbiSpiral {
    frame_bits: usize,
    branchtab: Vec<u8>,
    symbols: Vec<u8>,
    data: Vec<u8>,
    metrics1: Vec<u32>,
    metrics2: Vec<u32>,
    decisions: Vec<u32>,
}

impl ViterbiSpiral {
    /// Number of data bits per decoded frame.
    pub closed spec fn spec_frame_bits(&self) -> nat {
        self.frame_bits as nat
    }

    /// Number of packed decision words.
    pub closed spec fn spec_decision_words(&self) -> nat {
        self.decisions.len() as nat
    }

    /// The buffers have the sizes that the frame length calls for and the
    /// branch table holds the expected coder outputs.
    pub closed spec fn wf(&self) -> bool {
        &&& self.frame_bits + 6 <= usize::MAX / 4
        &&& self.branchtab.len() == 128
        &&& forall|r: int, st: int| 0 <= r < 4 && 0 <= st < 32
            ==> #[trigger] self.branchtab@[r * 32 + st] == branch_symbol(r, st)
        &&& self.symbols.len() == total_symbols(self.frame_bits as nat)
        &&& self.data.len() == self.frame_bits
        &&& self.metrics1.len() == 64
        &&& self.metrics2.len() == 64
        &&& self.decisions.len() == 2 * (self.frame_bits + 6)
    }

    /// Decoder for frames of `word_length` data bits.
    pub fn new(word_length: usize) -> (v: Self)
        requires word_length + 6 <= usize::MAX / 4,
        ensures
            v.wf(),
            v.spec_frame_bits() == word_length,
            v.spec_decision_words() == (word_length + 6) * 2,
    {
        let mut branchtab: Vec<u8> = Vec::new();
        let mut rate_idx: usize = 0;
        while rate_idx < RATE
            invariant
                rate_idx <= 4,
                branchtab.len() == rate_idx * 32,
                forall|r: int, st: int| 0 <= r < rate_idx && 0 <= st < 32
                    ==> #[trigger] branchtab@[r * 32 + st] == branch_symbol(r, st),
            decreases 4 - rate_idx,
        {
            let mut state: usize = 0;
            while state < NUM_STATES / 2
                invariant
                    rate_idx < 4,
                    state <= 32,
                    branchtab.len() == rate_idx * 32 + state,
                    forall|r: int, st: int| 0 <= r < rate_idx && 0 <= st < 32
                        ==> #[trigger] branchtab@[r * 32 + st] == branch_symbol(r, st),
                    forall|st: int| 0 <= st < state
                        ==> #[trigger] branchtab@[rate_idx * 32 + st] == branch_symbol(rate_idx as int, st),
                decreases 32 - state,
            {
                let x: u32 = ((2 * state) as u32) & poly_of(rate_idx);
                assert(x <= 127u32) by (bit_vector) requires x == ((2 * state) as u32) & poly(rate_idx as int), poly(rate_idx as int) <= 109u32;
                let bit: u8 = if parity(x as i32) != 0 { 255 } else { 0 };
                branchtab.push(bit);
                state = state + 1;
            }
            rate_idx = rate_idx + 1;
        }
        let total = RATE * (word_length + K - 1);
        let symbols: Vec<u8> = vec![0u8; total];
        let data: Vec<u8> = vec![0u8; word_length];
        let metrics1: Vec<u32> = vec![0u32; NUM_STATES];
        let metrics2: Vec<u32> = vec![0u32; NUM_STATES];
        let decisions: Vec<u32> = vec![0u32; (word_length + K - 1) * 2];
        ViterbiSpiral { frame_bits: word_length, branchtab, symbols, data, metrics1, metrics2, decisions }
    }

    /// Subtract the smallest metric from all metrics once it exceeds the
    /// renormalisation threshold.
    pub fn renormalize(metrics: &mut [u32])
        requires old(metrics)@.len() >= 1,
        ensures final(metrics)@ == renormalized(old(metrics)@),
    {
        let n = metrics.len();
        let mut min = metrics[0];
        let mut i: usize = 1;
        while i < n
            invariant
                1 <= i <= n,
                n == metrics@.len(),
                min == seq_min(metrics@.take(i as int)),
            decreases n - i,
        {
            assert(metrics@.take(i + 1).drop_last() =~= metrics@.take(i as int));
            if metrics[i] < min {
                min = metrics[i];
            }
            i = i + 1;
        }
        assert(metrics@.take(n as int) =~= metrics@);
        if should_renormalize(min) {
            let ghost m0 = metrics@;
            let mut j: usize = 0;
            while j < n
                invariant
                    j <= n,
                    n == m0.len(),
                    metrics@.len() == n,
                    min == seq_min(m0),
                    forall|t: int| 0 <= t < j ==> metrics@[t] == (m0[t] - min) as u32,
                    forall|t: int| j <= t < n ==> metrics@[t] == m0[t],
                decreases n - j,
            {
                proof { lemma_seq_min_le(m0, j as int); }
                let v = metrics[j];
                metrics[j] = v - min;
                j = j + 1;
            }
            assert(metrics@ =~= renormalized(m0));
        }
    }

    /// Reset the path metrics (state 0 favoured) and clear all decisions.
    fn init_viterbi(&mut self)
        requires old(self).wf(),
        ensures
            final(self).wf(),
            final(self).frame_bits == old(self).frame_bits,
            final(self).symbols@ == old(self).symbols@,
            final(self).metrics1@ == initial_metrics(),
    {
        let mut j: usize = 0;
        while j < NUM_STATES
            invariant
                j <= 64,
                self.wf(),
                self.frame_bits == old(self).frame_bits,
                self.symbols@ == old(self).symbols@,
                forall|t: int| 0 <= t < j ==> self.metrics1@[t] == (if t == 0 { 0u32 } else { 1000u32 }),
            decreases 64 - j,
        {
            self.metrics1[j] = if j == 0 { 0 } else { INITIAL_PATH_METRIC };
            j = j + 1;
        }
        assert(self.metrics1@ =~= initial_metrics());
        let mut j: usize = 0;
        while j < NUM_STATES
            invariant
                j <= 64,
                self.wf(),
                self.frame_bits == old(self).frame_bits,
                self.symbols@ == old(self).symbols@,
                self.metrics1@ == initial_metrics(),
            decreases 64 - j,
        {
            self.metrics2[j] = 0;
            j = j + 1;
        }
    }

    /// Add-compare-select over all trellis steps, recording every survivor decision.
    fn update_viterbi(&mut self)
        requires
            old(self).wf(),
            old(self).metrics1@ == initial_metrics(),
        ensures
            final(self).wf(),
            final(self).frame_bits == old(self).frame_bits,
            final(self).symbols@ == old(self).symbols@,
            forall|s: int, j: int| 0 <= s < old(self).frame_bits + 6 && 0 <= j < 64
                ==> #[trigger] packed_decision(final(self).decisions@, s, j)
                    == (if survivor(old(self).symbols@, s as nat, j) { 1u32 } else { 0u32 }),
    {
        let nbits = self.frame_bits + K - 1;
        let ghost syms = self.symbols@;
        let n = self.decisions.len();
        let mut w: usize = 0;
        while w < n
            invariant
                w <= n,
                n == self.decisions.len(),
                self.wf(),
                self.symbols@ == syms,
                self.metrics1@ == initial_metrics(),
                self.frame_bits == old(self).frame_bits,
                forall|t: int| 0 <= t < w ==> self.decisions@[t] == 0,
            decreases n - w,
        {
            self.decisions[w] = 0;
            w = w + 1;
        }
        proof { lemma_zero_bits(); }
        let mut s: usize = 0;
        while s < nbits
            invariant
                s <= nbits,
                nbits == self.frame_bits + 6,
                self.wf(),
                self.symbols@ == syms,
                self.frame_bits == old(self).frame_bits,
                self.metrics1@ == path_metrics(syms, s as nat),
                forall|s2: int, j: int| 0 <= s2 < s && 0 <= j < 64
                    ==> #[trigger] packed_decision(self.decisions@, s2, j)
                        == (if survivor(syms, s2 as nat, j) { 1u32 } else { 0u32 }),
                forall|w: int| 2 * s <= w < 2 * nbits ==> self.decisions@[w] == 0,
            decreases nbits - s,
        {
            let sym_base = s * RATE;
            let dec_offset = s * 2;
            let ghost old_m = self.metrics1@;
            let ghost dec0 = self.decisions@;
            proof { lemma_zero_bits(); }
            let mut i: usize = 0;
            while i < NUM_STATES / 2
                invariant
                    i <= 32,
                    s < nbits,
                    nbits == self.frame_bits + 6,
                    sym_base == 4 * s,
                    dec_offset == 2 * s,
                    self.wf(),
                    self.symbols@ == syms,
                    self.frame_bits == old(self).frame_bits,
                    self.metrics1@ == old_m,
                    old_m == path_metrics(syms, s as nat),
                    forall|j: int| 0 <= j < 2 * i ==> #[trigger] self.metrics2@[j] == acs_metric(old_m, syms, s as int, j),
                    dec0.len() == self.decisions@.len(),
                    forall|w: int| 2 * s <= w < 2 * nbits ==> dec0[w] == 0,
                    forall|w: int| 0 <= w < self.decisions@.len() && w != 2 * s && w != 2 * s + 1
                        ==> self.decisions@[w] == dec0[w],
                    forall|j: int| 0 <= j < 64 ==> #[trigger] packed_decision(self.decisions@, s as int, j)
                        == (if j < 2 * i { if acs_decision(old_m, syms, s as int, j) { 1u32 } else { 0u32 } } else { 0u32 }),
                decreases 32 - i,
            {
                let metric = compute_branch_metric(self.branchtab.as_slice(), self.symbols.as_slice(), sym_base, i);
                proof {
                    assert(self.branchtab@[0 * 32 + i] == branch_symbol(0, i as int));
                    assert(self.branchtab@[1 * 32 + i] == branch_symbol(1, i as int));
                    assert(self.branchtab@[2 * 32 + i] == branch_symbol(2, i as int));
                    assert(self.branchtab@[3 * 32 + i] == branch_symbol(3, i as int));
                    assert(metric == branch_metric(syms, s as int, i as int));
                }
                let complement = MAX_BRANCH_METRIC - metric;
                let lo = self.metrics1[i];
                let hi = self.metrics1[i + 32];
                let m0 = lo.wrapping_add(metric);
                let m1 = hi.wrapping_add(complement);
                let m2 = lo.wrapping_add(complement);
                let m3 = hi.wrapping_add(metric);
                let d0: u32 = if m0 > m1 { 1 } else { 0 };
                let d1: u32 = if m2 > m3 { 1 } else { 0 };
                self.metrics2[2 * i] = if m0 > m1 { m1 } else { m0 };
                self.metrics2[2 * i + 1] = if m2 > m3 { m3 } else { m2 };
                let ghost before = self.decisions@;
                store_survivor_pair(self.decisions.as_mut_slice(), dec_offset, i, d0, d1);
                proof {
                    lemma_butterfly_bits(before, self.decisions@, s as int, i as int, d0, d1,
                        |j: int| if acs_decision(old_m, syms, s as int, j) { 1u32 } else { 0u32 });
                }
                i = i + 1;
            }
            assert(self.metrics2@ =~= acs_step(old_m, syms, s as int));
            assert forall|w: int| 2 * (s + 1) <= w < 2 * nbits implies self.decisions@[w] == 0 by {
                assert(self.decisions@[w] == dec0[w]);
            }
            Self::renormalize(self.metrics2.as_mut_slice());
            std::mem::swap(&mut self.metrics1, &mut self.metrics2);
            proof {
                assert forall|s2: int, j: int| 0 <= s2 < s + 1 && 0 <= j < 64
                    implies #[trigger] packed_decision(self.decisions@, s2, j)
                        == (if survivor(syms, s2 as nat, j) { 1u32 } else { 0u32 }) by {
                    if s2 < s {
                        assert(packed_decision(dec0, s2, j) == (if survivor(syms, s2 as nat, j) { 1u32 } else { 0u32 }));
                        assert(self.decisions@[2 * s2 + j / 32] == dec0[2 * s2 + j / 32]);
                    }
                }
            }
            s = s + 1;
        }
    }

    /// Trace back from state 0 after the last trellis step, filling `data`
    /// with the decoded bits.
    fn chainback(&mut self)
        requires
            old(self).wf(),
            forall|s: int, j: int| 0 <= s < old(self).frame_bits + 6 && 0 <= j < 64
                ==> #[trigger] packed_decision(old(self).decisions@, s, j)
                    == (if survivor(old(self).symbols@, s as nat, j) { 1u32 } else { 0u32 }),
        ensures
            final(self).wf(),
            final(self).frame_bits == old(self).frame_bits,
            final(self).symbols@ == old(self).symbols@,
            final(self).data@ == viterbi_decode_syms(old(self).symbols@, old(self).frame_bits as nat),
    {
        let nbits = self.frame_bits;
        let ghost syms = self.symbols@;
        let mut state: u32 = 0;
        let mut i: usize = nbits;
        while i > 0
            invariant
                i <= nbits,
                nbits == self.frame_bits,
                self.wf(),
                self.symbols@ == syms,
                state == tb_state(syms, nbits as nat, i as nat),
                state < 64,
                forall|s: int, j: int| 0 <= s < nbits + 6 && 0 <= j < 64
                    ==> #[trigger] packed_decision(self.decisions@, s, j)
                        == (if survivor(syms, s as nat, j) { 1u32 } else { 0u32 }),
                forall|t: int| i <= t < nbits ==> self.data@[t] == decoded_bit(syms, nbits as nat, t as nat),
            decreases i,
        {
            i = i - 1;
            let s = K - 1 + i;
            let dec_offset = s * 2;
            let endstate = state << 2;
            assert((endstate >> 2u32) == state && endstate >> 2u32 < 64) by (bit_vector)
                requires endstate == state << 2u32, state < 64u32;
            let k = traceback_decision_bit(self.decisions.as_slice(), dec_offset, endstate);
            proof {
                assert(packed_decision(self.decisions@, s as int, state as int)
                    == (if survivor(syms, s as nat, state as int) { 1u32 } else { 0u32 }));
            }
            let ns = ((state >> 1) | (k << 5)) & 63;
            assert(ns < 64) by (bit_vector) requires ns == ((state >> 1u32) | (k << 5u32)) & 63u32;
            self.data[i] = k as u8;
            state = ns;
        }
    }

    /// Number of packed decision words (two per trellis step).
    pub fn decision_words(&self) -> (n: usize)
        requires self.wf(),
        ensures n == self.spec_decision_words(),
    {
        self.decisions.len()
    }

    /// Decode one frame of soft bits (−127 … +127 per coded bit) into hard
    /// bits (0/1 per byte). Missing soft bits count as erasures; only the
    /// first `frame_bits` output positions are written.
    pub fn deconvolve(&mut self, input: &[i16], output: &mut [u8])
        requires old(self).wf(),
        ensures
            final(self).wf(),
            final(self).spec_frame_bits() == old(self).spec_frame_bits(),
            decoded_frame(old(self).spec_frame_bits(), input@, old(output)@, final(output)@),
    {
        self.init_viterbi();
        let total = required_soft_input_len(self.frame_bits);
        let ghost fb = self.frame_bits as nat;
        let mut q: usize = 0;
        while q < total
            invariant
                q <= total,
                total == total_symbols(fb),
                fb == self.frame_bits,
                self.wf(),
                self.metrics1@ == initial_metrics(),
                forall|t: int| 0 <= t < q ==> #[trigger] self.symbols@[t] == symbol_at(input@, fb, t),
            decreases total - q,
        {
            let sym = if q < input.len() { map_soft_decision_to_symbol(input[q]) } else { NEUTRAL_SOFT_SYMBOL };
            self.symbols[q] = sym;
            q = q + 1;
        }
        assert(self.symbols@ =~= symbols_of(input@, fb));
        self.update_viterbi();
        self.chainback();
        let n = output.len();
        let mut i: usize = 0;
        while i < n
            invariant
                i <= n,
                n == output@.len(),
                n == old(output)@.len(),
                fb == self.frame_bits,
                self.wf(),
                self.data@ == viterbi_decode(fb, input@),
                forall|t: int| 0 <= t < i ==> #[trigger] output@[t] == (if t < fb { viterbi_decode(fb, input@)[t] } else { old(output)@[t] }),
                forall|t: int| i <= t < n ==> output@[t] == old(output)@[t],
            decreases n - i,
        {
            if i < self.frame_bits {
                output[i] = self.data[i];
            }
            i = i + 1;
        }
    }

    /// Re-encode `output` (the decoded bits) and compare it with the signs of
    /// the received soft bits on the transmitted (unpunctured) positions.
    /// Returns `(checked_bits, bit_errors)`.
    pub fn calculate_ber(&self, input: &[i16], puncture_table: &[bool], output: &[u8]) -> (r: (usize, usize))
        requires self.wf(),
        ensures
            ({
                let nbits = if self.spec_frame_bits() < output@.len() { self.spec_frame_bits() } else { output@.len() as nat };
                r.0 == ber_counts(input@, puncture_table@, output@, nbits, 4 * (nbits + 6)).0
                && r.1 == ber_counts(input@, puncture_table@, output@, nbits, 4 * (nbits + 6)).1
            }),
    {
        let nbits = if self.frame_bits < output.len() { self.frame_bits } else { output.len() };
        let mut bits: usize = 0;
        let mut errors: usize = 0;
        let mut shift_reg: usize = 0;
        let total = nbits + K - 1;
        let mut i: usize = 0;
        while i < total
            invariant
                i <= total,
                total == nbits + 6,
                nbits <= self.frame_bits,
                self.wf(),
                nbits <= output@.len(),
                shift_reg == enc_reg(output@, nbits as nat, i - 1),
                bits == ber_counts(input@, puncture_table@, output@, nbits as nat, 4 * i as nat).0,
                errors == ber_counts(input@, puncture_table@, output@, nbits as nat, 4 * i as nat).1,
                bits <= 4 * i,
                errors <= 4 * i,
            decreases total - i,
        {
            let b: usize = if i < nbits {
                let x = output[i];
                assert((x & 1u8) <= 1u8) by (bit_vector);
                (x & 1) as usize
            } else { 0 };
            shift_reg = (shift_reg * 2 + b) % 256;
            let mut j: usize = 0;
            while j < RATE
                invariant
                    j <= 4,
                    i < total,
                    total == nbits + 6,
                    nbits <= self.frame_bits,
                    self.wf(),
                    shift_reg == enc_reg(output@, nbits as nat, i as int),
                    shift_reg < 256,
                    bits == ber_counts(input@, puncture_table@, output@, nbits as nat, (4 * i + j) as nat).0,
                    errors == ber_counts(input@, puncture_table@, output@, nbits as nat, (4 * i + j) as nat).1,
                    bits <= 4 * i + j,
                    errors <= 4 * i + j,
                decreases 4 - j,
            {
                let idx = i * RATE + j;
                assert(idx / 4 == i && idx % 4 == j);
                if idx < input.len() && idx < puncture_table.len() && puncture_table[idx] {
                    bits = bits + 1;
                    let expected = parity((shift_reg as u32 & poly_of(j)) as i32) != 0;
                    proof {
                        let x = shift_reg as u32 & poly(j as int);
                        assert(x <= 255u32) by (bit_vector) requires x == (shift_reg as u32) & poly(j as int), shift_reg < 256usize;
                    }
                    let observed = input[idx] > 0;
                    if observed != expected {
                        errors = errors + 1;
                    }
                }
                j = j + 1;
            }
            i = i + 1;
        }
        (bits, errors)
    }
}

} // verus!

verus! {

/// Every position of a decoded frame holds 0 or 1.
pub proof fn lemma_decoded_bits_are_binary(frame_bits: nat, input: Seq<i16>)
    ensures
        viterbi_decode(frame_bits, input).len() == frame_bits,
        forall|i: int| 0 <= i < frame_bits ==> #[trigger] viterbi_decode(frame_bits, input)[i] <= 1,
{
}

/// Soft bits beyond the trellis length are ignored, and soft bits missing at
/// the end count as zero-confidence bits: padding or truncating the input at
/// the trellis length does not change the decoded frame.
pub proof fn lemma_decode_uses_trellis_prefix_only(frame_bits: nat, input: Seq<i16>, padded: Seq<i16>)
    requires
        padded.len() >= total_symbols(frame_bits),
        forall|q: int| 0 <= q < total_symbols(frame_bits) ==> #[trigger] padded[q] == (if q < input.len() { input[q] } else { 0i16 }),
    ensures
        viterbi_decode(frame_bits, padded) == viterbi_decode(frame_bits, input),
{
    assert(symbols_of(padded, frame_bits) =~= symbols_of(input, frame_bits));
}

/// The all-zero codeword (every coded bit received as a confident 0,
/// soft value −127 or below) decodes to the all-zero frame, whatever its
/// length.
pub proof fn lemma_zero_codeword_decodes_to_zero(frame_bits: nat, input: Seq<i16>)
    requires
        input.len() >= total_symbols(frame_bits),
        forall|q: int| 0 <= q < total_symbols(frame_bits) ==> #[trigger] input[q] <= -127,
    ensures
        forall|i: int| 0 <= i < frame_bits ==> #[trigger] viterbi_decode(frame_bits, input)[i] == 0,
{
    let zeros = Seq::new(frame_bits, |k: int| 0u8);
    assert forall|q: int| 0 <= q < total_symbols(zeros.len()) implies {
        let p = #[trigger] parity_spec(crate::sim::sim_reg(zeros, zeros.len(), q / 4) & poly(q % 4));
        &&& (p != 0 ==> input[q] >= 127)
        &&& (p == 0 ==> input[q] <= -127)
    } by {
        crate::sim::lemma_zero_register(frame_bits, q / 4);
        assert(parity_spec(crate::sim::sim_reg(zeros, frame_bits, q / 4) & poly(q % 4)) == 0) by {
            assert(crate::sim::sim_reg(zeros, frame_bits, q / 4) == 0);
            assert(parity_spec(0u32 & poly(q % 4)) == 0u32) by {
                let pp = poly(q % 4);
                assert(parity_spec(0u32 & pp) == 0u32) by (bit_vector);
            }
        }
    }
    crate::sim::lemma_clean_codeword_decodes(zeros, input);
}

/// Two decodings of the same input into frames of the same length write
/// the same bits, whatever each decoder decoded before: every written
/// position holds 0 or 1 and agrees between the two, and positions past the
/// frame keep what they held.
pub proof fn lemma_decoding_ignores_history(frame_bits: nat, input: Seq<i16>,
    before1: Seq<u8>, after1: Seq<u8>, before2: Seq<u8>, after2: Seq<u8>)
    requires
        decoded_frame(frame_bits, input, before1, after1),
        decoded_frame(frame_bits, input, before2, after2),
    ensures
        forall|i: int| 0 <= i < frame_bits && i < after1.len() && i < after2.len()
            ==> #[trigger] after1[i] == after2[i] && after1[i] <= 1,
        forall|i: int| frame_bits <= i < after1.len() ==> #[trigger] after1[i] == before1[i],
{
    lemma_decoded_bits_are_binary(frame_bits, input);
}

/// An input shorter than the trellis decodes as if it were padded with
/// zero soft bits up to the trellis length.
pub proof fn lemma_short_input_reads_as_zero_padded(frame_bits: nat, input: Seq<i16>)
    requires input.len() < total_symbols(frame_bits),
    ensures
        viterbi_decode(frame_bits, input)
            == viterbi_decode(frame_bits, input + Seq::new((total_symbols(frame_bits) - input.len()) as nat, |q: int| 0i16)),
{
    let padded = input + Seq::new((total_symbols(frame_bits) - input.len()) as nat, |q: int| 0i16);
    assert forall|q: int| 0 <= q < total_symbols(frame_bits) implies #[trigger] padded[q]
        == (if q < input.len() { input[q] } else { 0i16 }) by {}
    lemma_decode_uses_trellis_prefix_only(frame_bits, input, padded);
}

} // verus!
