//! Error protection of MSC sub-channels: depuncturing according to the
//! equal (EEP, ETSI EN 300 401 §11.3.2) and unequal (UEP, §11.3.1)
//! protection profiles, followed by Viterbi decoding.

use vstd::prelude::*;
use crate::prot_tables::{pcode, pcode_bit, pcode_fn, lemma_pcode_keeps, lemma_tail_keeps};
use crate::counting::{count_where, count_true, flags, lemma_count_split, lemma_count_ext, lemma_count_shift, lemma_count_periods};
use crate::viterbi::{ViterbiSpiral, viterbi_decode};

verus! {

/// Whether a sub-channel bit rate describes a usable protection profile.
pub fn is_valid_protection_bit_rate(bit_rate: i16) -> (b: bool)
    ensures b == (bit_rate > 0),
{
    bit_rate > 0
}

// ── puncturing masks ─────────────────────────────────────────────────────

/// Whether position `p` of a coded sub-channel block is transmitted, for a
/// block made of four runs of 128-bit groups (lengths `l1..l4`, puncturing
/// vectors `pi1..pi4`, 0-based) followed by 24 tail bits punctured with PI_8.
pub open spec fn segment_bit(p: int, l1: int, pi1: int, l2: int, pi2: int, l3: int, pi3: int, l4: int, pi4: int) -> bool {
    let e1 = 128 * l1;
    let e2 = e1 + 128 * l2;
    let e3 = e2 + 128 * l3;
    let e4 = e3 + 128 * l4;
    if p < e1 { pcode(pi1, p % 32) }
    else if p < e2 { pcode(pi2, p % 32) }
    else if p < e3 { pcode(pi3, p % 32) }
    else if p < e4 { pcode(pi4, p % 32) }
    else if p < e4 + 24 { pcode(7, p - e4) }
    else { false }
}

pub open spec fn puncture_mask(len: nat, l1: int, pi1: int, l2: int, pi2: int, l3: int, pi3: int, l4: int, pi4: int) -> Seq<bool> {
    Seq::new(len, |p: int| segment_bit(p, l1, pi1, l2, pi2, l3, pi3, l4, pi4))
}

/// Mask of an empty profile: 24 positions, none transmitted.
pub open spec fn empty_mask() -> Seq<bool> {
    Seq::new(24, |p: int| false)
}

// ── how many positions a mask transmits ──────────────────────────────────

/// A run of `l` groups of 128 positions, from a multiple of 32, punctured
/// with PI_{idx+1}, transmits `4 l (idx + 9)` positions.
proof fn lemma_run_count(f: spec_fn(int) -> bool, q: int, l: int, idx: int)
    requires
        q >= 0, l >= 0, 0 <= idx < 24,
        forall|p: int| 32 * q <= p < 32 * q + 128 * l ==> #[trigger] f(p) == pcode(idx, p % 32),
    ensures count_where(f, 32 * q, 32 * q + 128 * l) == 4 * l * (idx + 9),
{
    let lo = 32 * q;
    assert forall|i: int| 0 <= i < 4 * l implies #[trigger] count_where(f, lo + i * 32, lo + i * 32 + 32) == idx + 9 by {
        let a = lo + i * 32;
        lemma_count_shift(f, a, a + 32);
        let g = |j: int| f(j + a);
        assert forall|j: int| 0 <= j < 32 implies #[trigger] g(j) == pcode_fn(idx)(j) by {
            assert(a + 32 <= 32 * q + 128 * l) by (nonlinear_arith) requires a == 32 * q + i * 32, i < 4 * l, i >= 0;
            assert(a <= j + a);
            assert((j + a) % 32 == j) by (nonlinear_arith) requires a == 32 * q + i * 32, 0 <= j < 32, q >= 0, i >= 0;
        }
        lemma_count_ext(g, pcode_fn(idx), 0, 32);
        lemma_pcode_keeps(idx);
    }
    lemma_count_periods(f, lo, 32, (4 * l) as nat, (idx + 9) as nat);
    assert(lo + (4 * l) * 32 == 32 * q + 128 * l);
    assert((4 * l) * (idx + 9) == 4 * l * (idx + 9)) by (nonlinear_arith);
}

/// A mask of two runs (`l1` groups with PI_{pi1+1}, `l2` with PI_{pi2+1})
/// and the tail transmits `4 l1 (pi1 + 9) + 4 l2 (pi2 + 9) + 12` positions.
pub proof fn lemma_two_run_mask_count(l1: int, pi1: int, l2: int, pi2: int)
    requires l1 >= 0, l2 >= 0, 0 <= pi1 < 24, 0 <= pi2 < 24,
    ensures
        count_true(puncture_mask((128 * (l1 + l2) + 24) as nat, l1, pi1, l2, pi2, 0, 0, 0, 0))
            == 4 * l1 * (pi1 + 9) + 4 * l2 * (pi2 + 9) + 12,
{
    let len = 128 * (l1 + l2) + 24;
    let m = puncture_mask(len as nat, l1, pi1, l2, pi2, 0, 0, 0, 0);
    let f = flags(m);
    let e1 = 128 * l1;
    let e2 = e1 + 128 * l2;
    assert forall|p: int| 0 <= p < e1 implies #[trigger] f(p) == pcode(pi1, p % 32) by {}
    lemma_run_count(f, 0, l1, pi1);
    assert forall|p: int| 32 * (4 * l1) <= p < 32 * (4 * l1) + 128 * l2 implies #[trigger] f(p) == pcode(pi2, p % 32) by {}
    lemma_run_count(f, 4 * l1, l2, pi2);
    lemma_count_shift(f, e2, e2 + 24);
    let g = |j: int| f(j + e2);
    assert forall|j: int| 0 <= j < 24 implies #[trigger] g(j) == pcode_fn(7)(j) by {}
    lemma_count_ext(g, pcode_fn(7), 0, 24);
    lemma_tail_keeps();
    lemma_count_split(f, 0, e1, e2);
    lemma_count_split(f, 0, e2, e2 + 24);
}

/// Each 32-position period of the runs of a two-run mask transmits as
/// many positions as its puncturing vector keeps: `pi1 + 9` in the first
/// run, `pi2 + 9` in the second.
pub proof fn lemma_two_run_mask_period(l1: int, pi1: int, l2: int, pi2: int, k: int)
    requires l1 >= 0, l2 >= 0, 0 <= pi1 < 24, 0 <= pi2 < 24, 0 <= k < 4 * (l1 + l2),
    ensures
        count_where(flags(puncture_mask((128 * (l1 + l2) + 24) as nat, l1, pi1, l2, pi2, 0, 0, 0, 0)), 32 * k, 32 * k + 32)
            == if k < 4 * l1 { pi1 + 9 } else { pi2 + 9 },
{
    let len = 128 * (l1 + l2) + 24;
    let m = puncture_mask(len as nat, l1, pi1, l2, pi2, 0, 0, 0, 0);
    let f = flags(m);
    let idx = if k < 4 * l1 { pi1 } else { pi2 };
    assert forall|p: int| 32 * k <= p < 32 * k + 32 implies #[trigger] f(p) == pcode(idx, p % 32) by {}
    lemma_count_shift(f, 32 * k, 32 * k + 32);
    let g = |j: int| f(j + 32 * k);
    assert forall|j: int| 0 <= j < 32 implies #[trigger] g(j) == pcode_fn(idx)(j) by {
        assert((j + 32 * k) % 32 == j) by (nonlinear_arith) requires 0 <= j < 32, k >= 0;
    }
    lemma_count_ext(g, pcode_fn(idx), 0, 32);
    lemma_pcode_keeps(idx);
}

/// EEP layout (L1, L2, 0-based index of PI_1, of PI_2) for a bit rate and
/// protection level; levels with bit 2 set are the B profiles.
pub open spec fn eep_layout(br: int, pl: i16) -> (int, int, int, int) {
    if (pl & 4i16) == 0i16 {
        let lv = pl & 3i16;
        if lv == 0i16 { (6 * br / 8 - 3, 3, 23, 22) }
        else if lv == 1i16 {
            if br == 8 { (5, 1, 12, 11) } else { (2 * br / 8 - 3, 4 * br / 8 + 3, 13, 12) }
        }
        else if lv == 2i16 { (6 * br / 8 - 3, 3, 7, 6) }
        else { (4 * br / 8 - 3, 2 * br / 8 + 3, 2, 1) }
    } else {
        let lv = pl & 3i16;
        if lv == 3i16 { (24 * br / 32 - 3, 3, 1, 0) }
        else if lv == 2i16 { (24 * br / 32 - 3, 3, 3, 2) }
        else if lv == 1i16 { (24 * br / 32 - 3, 3, 5, 4) }
        else { (24 * br / 32 - 3, 3, 9, 8) }
    }
}

/// Bit rates and levels for which the EEP tables give non-negative run
/// lengths (the decoder cannot build a profile for other pairs).
pub open spec fn eep_params_ok(br: i16, pl: i16) -> bool {
    br <= 0 || eep_layout(br as int, pl).0 >= 0
}

/// Transmitted positions of an EEP-protected sub-channel.
pub open spec fn eep_mask(br: i16, pl: i16) -> Seq<bool> {
    if br <= 0 {
        empty_mask()
    } else {
        let t = eep_layout(br as int, pl);
        puncture_mask((96 * br + 24) as nat, t.0, t.2, t.1, t.3, 0, 0, 0, 0)
    }
}

/// Capacity units (64 bits each) that an EEP sub-channel of bit rate `br`
/// occupies at protection level `pl` (ETSI EN 300 401 Tables 7 and 8):
/// per 8 kbit/s 12, 8, 6, 4 units for 1-A..4-A, per 32 kbit/s 27, 21, 18, 15
/// units for 1-B..4-B.
pub open spec fn eep_capacity_units(br: int, pl: int) -> int {
    if pl == 0 { 12 * (br / 8) } else if pl == 1 { 8 * (br / 8) }
    else if pl == 2 { 6 * (br / 8) } else if pl == 3 { 4 * (br / 8) }
    else if pl == 4 { 27 * (br / 32) } else if pl == 5 { 21 * (br / 32) }
    else if pl == 6 { 18 * (br / 32) } else { 15 * (br / 32) }
}

/// The EEP depuncturing mask transmits exactly the sub-channel's size: for
/// every standard bit rate (a multiple of 8 kbit/s for the A profiles, of
/// 32 kbit/s for the B profiles) the mask marks 64 positions per capacity
/// unit of the sub-channel, so every received soft bit has its place.
pub proof fn lemma_eep_mask_transmits_subchannel_size(br: i16, pl: i16)
    requires
        0 <= pl < 8,
        br > 0,
        pl < 4 ==> br % 8 == 0,
        pl >= 4 ==> br % 32 == 0,
    ensures
        count_true(eep_mask(br, pl)) == 64 * eep_capacity_units(br as int, pl as int),
{
    assert((pl & 4i16) == (if pl >= 4 { 4i16 } else { 0i16 }) && (pl & 3i16) == (if pl >= 4 { (pl - 4) as i16 } else { pl }))
        by (bit_vector) requires 0 <= pl < 8i16;
    let b = br as int;
    let t = eep_layout(b, pl);
    if pl < 4 {
        let n = b / 8;
        assert(b == 8 * n);
        assert(6 * b / 8 == 6 * n && 2 * b / 8 == 2 * n && 4 * b / 8 == 4 * n);
        if pl == 1 && b == 8 {
            assert(t == (5int, 1int, 12int, 11int));
        } else {
            assert(n >= 1);
            if pl == 1 { assert(n >= 2); }
        }
    } else {
        let n = b / 32;
        assert(b == 32 * n);
        assert(24 * b / 32 == 24 * n);
    }
    assert(t.0 >= 0 && t.1 >= 0);
    assert(96 * b + 24 == 128 * (t.0 + t.1) + 24);
    lemma_two_run_mask_count(t.0, t.2, t.1, t.3);
    assert(4 * t.0 * (t.2 + 9) + 4 * t.1 * (t.3 + 9) + 12 == 64 * eep_capacity_units(b, pl as int)) by (nonlinear_arith)
        requires
            pl < 4 ==> b == 8 * (b / 8),
            pl >= 4 ==> b == 32 * (b / 32),
            t == eep_layout(b, pl),
            0 <= pl < 8,
            pl < 4 ==> (pl & 4i16) == 0i16 && (pl & 3i16) == pl,
            pl >= 4 ==> (pl & 4i16) == 4i16 && (pl & 3i16) == pl - 4;
}

// ── UEP profile table (ETSI EN 300 401 §11.3.1, Table 31) ────────────────

/// One UEP protection profile: run lengths L1..L4 and puncturing vector
/// numbers PI1..PI4 (1-based; −1 where the fourth run is absent).
#[derive(Clone, Copy, Debug, PartialEq, Eq)]
pub struct ProtProfile {
    pub bit_rate: i16,
    pub prot_level: i16,
    pub l1: i16,
    pub l2: i16,
    pub l3: i16,
    pub l4: i16,
    pub pi1: i16,
    pub pi2: i16,
    pub pi3: i16,
    pub pi4: i16,
}

pub const PROFILE_COUNT: usize = 64;

pub open spec fn spec_profile(i: int) -> ProtProfile {
    if i == 0 { ProtProfile { bit_rate: 32, prot_level: 5, l1: 3, l2: 4, l3: 17, l4: 0, pi1: 5, pi2: 3, pi3: 2, pi4: -1i16 } }
    else if i == 1 { ProtProfile { bit_rate: 32, prot_level: 4, l1: 3, l2: 3, l3: 18, l4: 0, pi1: 11, pi2: 6, pi3: 5, pi4: -1i16 } }
    else if i == 2 { ProtProfile { bit_rate: 32, prot_level: 3, l1: 3, l2: 4, l3: 14, l4: 3, pi1: 15, pi2: 9, pi3: 6, pi4: 8 } }
    else if i == 3 { ProtProfile { bit_rate: 32, prot_level: 2, l1: 3, l2: 4, l3: 14, l4: 3, pi1: 22, pi2: 13, pi3: 8, pi4: 13 } }
    else if i == 4 { ProtProfile { bit_rate: 32, prot_level: 1, l1: 3, l2: 5, l3: 13, l4: 3, pi1: 24, pi2: 17, pi3: 12, pi4: 17 } }
    else if i == 5 { ProtProfile { bit_rate: 48, prot_level: 5, l1: 4, l2: 3, l3: 26, l4: 3, pi1: 5, pi2: 4, pi3: 2, pi4: 3 } }
    else if i == 6 { ProtProfile { bit_rate: 48, prot_level: 4, l1: 3, l2: 4, l3: 26, l4: 3, pi1: 9, pi2: 6, pi3: 4, pi4: 6 } }
    else if i == 7 { ProtProfile { bit_rate: 48, prot_level: 3, l1: 3, l2: 4, l3: 26, l4: 3, pi1: 15, pi2: 10, pi3: 6, pi4: 9 } }
    else if i == 8 { ProtProfile { bit_rate: 48, prot_level: 2, l1: 3, l2: 4, l3: 26, l4: 3, pi1: 24, pi2: 14, pi3: 8, pi4: 15 } }
    else if i == 9 { ProtProfile { bit_rate: 48, prot_level: 1, l1: 3, l2: 5, l3: 25, l4: 3, pi1: 24, pi2: 18, pi3: 13, pi4: 18 } }
    else if i == 10 { ProtProfile { bit_rate: 56, prot_level: 5, l1: 6, l2: 10, l3: 23, l4: 3, pi1: 5, pi2: 4, pi3: 2, pi4: 3 } }
    else if i == 11 { ProtProfile { bit_rate: 56, prot_level: 4, l1: 6, l2: 10, l3: 23, l4: 3, pi1: 9, pi2: 6, pi3: 4, pi4: 5 } }
    else if i == 12 { ProtProfile { bit_rate: 56, prot_level: 3, l1: 6, l2: 12, l3: 21, l4: 3, pi1: 16, pi2: 7, pi3: 6, pi4: 9 } }
    else if i == 13 { ProtProfile { bit_rate: 56, prot_level: 2, l1: 6, l2: 10, l3: 23, l4: 3, pi1: 23, pi2: 13, pi3: 8, pi4: 13 } }
    else if i == 14 { ProtProfile { bit_rate: 64, prot_level: 5, l1: 6, l2: 9, l3: 31, l4: 2, pi1: 5, pi2: 3, pi3: 2, pi4: 3 } }
    else if i == 15 { ProtProfile { bit_rate: 64, prot_level: 4, l1: 6, l2: 9, l3: 33, l4: 0, pi1: 11, pi2: 6, pi3: 5, pi4: -1i16 } }
    else if i == 16 { ProtProfile { bit_rate: 64, prot_level: 3, l1: 6, l2: 12, l3: 27, l4: 3, pi1: 16, pi2: 8, pi3: 6, pi4: 9 } }
    else if i == 17 { ProtProfile { bit_rate: 64, prot_level: 2, l1: 6, l2: 10, l3: 29, l4: 3, pi1: 23, pi2: 13, pi3: 8, pi4: 13 } }
    else if i == 18 { ProtProfile { bit_rate: 64, prot_level: 1, l1: 6, l2: 11, l3: 28, l4: 3, pi1: 24, pi2: 18, pi3: 12, pi4: 18 } }
    else if i == 19 { ProtProfile { bit_rate: 80, prot_level: 5, l1: 6, l2: 10, l3: 41, l4: 3, pi1: 6, pi2: 3, pi3: 2, pi4: 3 } }
    else if i == 20 { ProtProfile { bit_rate: 80, prot_level: 4, l1: 6, l2: 10, l3: 41, l4: 3, pi1: 11, pi2: 6, pi3: 5, pi4: 6 } }
    else if i == 21 { ProtProfile { bit_rate: 80, prot_level: 3, l1: 6, l2: 11, l3: 40, l4: 3, pi1: 16, pi2: 8, pi3: 6, pi4: 7 } }
    else if i == 22 { ProtProfile { bit_rate: 80, prot_level: 2, l1: 6, l2: 10, l3: 41, l4: 3, pi1: 23, pi2: 13, pi3: 8, pi4: 13 } }
    else if i == 23 { ProtProfile { bit_rate: 80, prot_level: 1, l1: 6, l2: 10, l3: 41, l4: 3, pi1: 24, pi2: 7, pi3: 12, pi4: 18 } }
    else if i == 24 { ProtProfile { bit_rate: 96, prot_level: 5, l1: 7, l2: 9, l3: 53, l4: 3, pi1: 5, pi2: 4, pi3: 2, pi4: 4 } }
    else if i == 25 { ProtProfile { bit_rate: 96, prot_level: 4, l1: 7, l2: 10, l3: 52, l4: 3, pi1: 9, pi2: 6, pi3: 4, pi4: 6 } }
    else if i == 26 { ProtProfile { bit_rate: 96, prot_level: 3, l1: 6, l2: 12, l3: 51, l4: 3, pi1: 16, pi2: 9, pi3: 6, pi4: 10 } }
    else if i == 27 { ProtProfile { bit_rate: 96, prot_level: 2, l1: 6, l2: 10, l3: 53, l4: 3, pi1: 22, pi2: 12, pi3: 9, pi4: 12 } }
    else if i == 28 { ProtProfile { bit_rate: 96, prot_level: 1, l1: 6, l2: 13, l3: 50, l4: 3, pi1: 24, pi2: 18, pi3: 13, pi4: 19 } }
    else if i == 29 { ProtProfile { bit_rate: 112, prot_level: 5, l1: 14, l2: 17, l3: 50, l4: 3, pi1: 5, pi2: 4, pi3: 2, pi4: 5 } }
    else if i == 30 { ProtProfile { bit_rate: 112, prot_level: 4, l1: 11, l2: 21, l3: 49, l4: 3, pi1: 9, pi2: 6, pi3: 4, pi4: 8 } }
    else if i == 31 { ProtProfile { bit_rate: 112, prot_level: 3, l1: 11, l2: 23, l3: 47, l4: 3, pi1: 16, pi2: 8, pi3: 6, pi4: 9 } }
    else if i == 32 { ProtProfile { bit_rate: 112, prot_level: 2, l1: 11, l2: 21, l3: 49, l4: 3, pi1: 23, pi2: 12, pi3: 9, pi4: 14 } }
    else if i == 33 { ProtProfile { bit_rate: 128, prot_level: 5, l1: 12, l2: 19, l3: 62, l4: 3, pi1: 5, pi2: 3, pi3: 2, pi4: 4 } }
    else if i == 34 { ProtProfile { bit_rate: 128, prot_level: 4, l1: 11, l2: 21, l3: 61, l4: 3, pi1: 11, pi2: 6, pi3: 5, pi4: 7 } }
    else if i == 35 { ProtProfile { bit_rate: 128, prot_level: 3, l1: 11, l2: 22, l3: 60, l4: 3, pi1: 16, pi2: 9, pi3: 6, pi4: 10 } }
    else if i == 36 { ProtProfile { bit_rate: 128, prot_level: 2, l1: 11, l2: 21, l3: 61, l4: 3, pi1: 22, pi2: 12, pi3: 9, pi4: 14 } }
    else if i == 37 { ProtProfile { bit_rate: 128, prot_level: 1, l1: 11, l2: 20, l3: 62, l4: 3, pi1: 24, pi2: 17, pi3: 13, pi4: 19 } }
    else if i == 38 { ProtProfile { bit_rate: 160, prot_level: 5, l1: 11, l2: 19, l3: 87, l4: 3, pi1: 5, pi2: 4, pi3: 2, pi4: 4 } }
    else if i == 39 { ProtProfile { bit_rate: 160, prot_level: 4, l1: 11, l2: 23, l3: 83, l4: 3, pi1: 11, pi2: 6, pi3: 5, pi4: 9 } }
    else if i == 40 { ProtProfile { bit_rate: 160, prot_level: 3, l1: 11, l2: 24, l3: 82, l4: 3, pi1: 16, pi2: 8, pi3: 6, pi4: 11 } }
    else if i == 41 { ProtProfile { bit_rate: 160, prot_level: 2, l1: 11, l2: 21, l3: 85, l4: 3, pi1: 22, pi2: 11, pi3: 9, pi4: 13 } }
    else if i == 42 { ProtProfile { bit_rate: 160, prot_level: 1, l1: 11, l2: 22, l3: 84, l4: 3, pi1: 24, pi2: 18, pi3: 12, pi4: 19 } }
    else if i == 43 { ProtProfile { bit_rate: 192, prot_level: 5, l1: 11, l2: 20, l3: 110, l4: 3, pi1: 6, pi2: 4, pi3: 2, pi4: 5 } }
    else if i == 44 { ProtProfile { bit_rate: 192, prot_level: 4, l1: 11, l2: 22, l3: 108, l4: 3, pi1: 10, pi2: 6, pi3: 4, pi4: 9 } }
    else if i == 45 { ProtProfile { bit_rate: 192, prot_level: 3, l1: 11, l2: 24, l3: 106, l4: 3, pi1: 16, pi2: 10, pi3: 6, pi4: 11 } }
    else if i == 46 { ProtProfile { bit_rate: 192, prot_level: 2, l1: 11, l2: 20, l3: 110, l4: 3, pi1: 22, pi2: 13, pi3: 9, pi4: 13 } }
    else if i == 47 { ProtProfile { bit_rate: 192, prot_level: 1, l1: 11, l2: 21, l3: 109, l4: 3, pi1: 24, pi2: 20, pi3: 13, pi4: 24 } }
    else if i == 48 { ProtProfile { bit_rate: 224, prot_level: 5, l1: 12, l2: 22, l3: 131, l4: 3, pi1: 8, pi2: 6, pi3: 2, pi4: 6 } }
    else if i == 49 { ProtProfile { bit_rate: 224, prot_level: 4, l1: 12, l2: 26, l3: 127, l4: 3, pi1: 12, pi2: 8, pi3: 4, pi4: 11 } }
    else if i == 50 { ProtProfile { bit_rate: 224, prot_level: 3, l1: 11, l2: 20, l3: 134, l4: 3, pi1: 16, pi2: 10, pi3: 7, pi4: 9 } }
    else if i == 51 { ProtProfile { bit_rate: 224, prot_level: 2, l1: 11, l2: 22, l3: 132, l4: 3, pi1: 24, pi2: 16, pi3: 10, pi4: 15 } }
    else if i == 52 { ProtProfile { bit_rate: 224, prot_level: 1, l1: 11, l2: 24, l3: 130, l4: 3, pi1: 24, pi2: 20, pi3: 12, pi4: 20 } }
    else if i == 53 { ProtProfile { bit_rate: 256, prot_level: 5, l1: 11, l2: 24, l3: 154, l4: 3, pi1: 6, pi2: 5, pi3: 2, pi4: 5 } }
    else if i == 54 { ProtProfile { bit_rate: 256, prot_level: 4, l1: 11, l2: 24, l3: 154, l4: 3, pi1: 12, pi2: 9, pi3: 5, pi4: 10 } }
    else if i == 55 { ProtProfile { bit_rate: 256, prot_level: 3, l1: 11, l2: 27, l3: 151, l4: 3, pi1: 16, pi2: 10, pi3: 7, pi4: 10 } }
    else if i == 56 { ProtProfile { bit_rate: 256, prot_level: 2, l1: 11, l2: 22, l3: 156, l4: 3, pi1: 24, pi2: 14, pi3: 10, pi4: 13 } }
    else if i == 57 { ProtProfile { bit_rate: 256, prot_level: 1, l1: 11, l2: 26, l3: 152, l4: 3, pi1: 24, pi2: 19, pi3: 14, pi4: 18 } }
    else if i == 58 { ProtProfile { bit_rate: 320, prot_level: 5, l1: 11, l2: 26, l3: 200, l4: 3, pi1: 8, pi2: 5, pi3: 2, pi4: 6 } }
    else if i == 59 { ProtProfile { bit_rate: 320, prot_level: 4, l1: 11, l2: 25, l3: 201, l4: 3, pi1: 13, pi2: 9, pi3: 5, pi4: 10 } }
    else if i == 60 { ProtProfile { bit_rate: 320, prot_level: 2, l1: 11, l2: 26, l3: 200, l4: 3, pi1: 24, pi2: 17, pi3: 9, pi4: 17 } }
    else if i == 61 { ProtProfile { bit_rate: 384, prot_level: 5, l1: 11, l2: 27, l3: 247, l4: 3, pi1: 8, pi2: 6, pi3: 2, pi4: 7 } }
    else if i == 62 { ProtProfile { bit_rate: 384, prot_level: 3, l1: 11, l2: 24, l3: 250, l4: 3, pi1: 16, pi2: 9, pi3: 7, pi4: 10 } }
    else { ProtProfile { bit_rate: 384, prot_level: 1, l1: 12, l2: 28, l3: 245, l4: 3, pi1: 24, pi2: 20, pi3: 14, pi4: 23 } }
}

/// Entry `i` of the UEP profile table.
pub fn profile_entry(i: usize) -> (p: ProtProfile)
    requires i < PROFILE_COUNT,
    ensures p == spec_profile(i as int),
{
    match i {
        0 => ProtProfile { bit_rate: 32, prot_level: 5, l1: 3, l2: 4, l3: 17, l4: 0, pi1: 5, pi2: 3, pi3: 2, pi4: -1 },
        1 => ProtProfile { bit_rate: 32, prot_level: 4, l1: 3, l2: 3, l3: 18, l4: 0, pi1: 11, pi2: 6, pi3: 5, pi4: -1 },
        2 => ProtProfile { bit_rate: 32, prot_level: 3, l1: 3, l2: 4, l3: 14, l4: 3, pi1: 15, pi2: 9, pi3: 6, pi4: 8 },
        3 => ProtProfile { bit_rate: 32, prot_level: 2, l1: 3, l2: 4, l3: 14, l4: 3, pi1: 22, pi2: 13, pi3: 8, pi4: 13 },
        4 => ProtProfile { bit_rate: 32, prot_level: 1, l1: 3, l2: 5, l3: 13, l4: 3, pi1: 24, pi2: 17, pi3: 12, pi4: 17 },
        5 => ProtProfile { bit_rate: 48, prot_level: 5, l1: 4, l2: 3, l3: 26, l4: 3, pi1: 5, pi2: 4, pi3: 2, pi4: 3 },
        6 => ProtProfile { bit_rate: 48, prot_level: 4, l1: 3, l2: 4, l3: 26, l4: 3, pi1: 9, pi2: 6, pi3: 4, pi4: 6 },
        7 => ProtProfile { bit_rate: 48, prot_level: 3, l1: 3, l2: 4, l3: 26, l4: 3, pi1: 15, pi2: 10, pi3: 6, pi4: 9 },
        8 => ProtProfile { bit_rate: 48, prot_level: 2, l1: 3, l2: 4, l3: 26, l4: 3, pi1: 24, pi2: 14, pi3: 8, pi4: 15 },
        9 => ProtProfile { bit_rate: 48, prot_level: 1, l1: 3, l2: 5, l3: 25, l4: 3, pi1: 24, pi2: 18, pi3: 13, pi4: 18 },
        10 => ProtProfile { bit_rate: 56, prot_level: 5, l1: 6, l2: 10, l3: 23, l4: 3, pi1: 5, pi2: 4, pi3: 2, pi4: 3 },
        11 => ProtProfile { bit_rate: 56, prot_level: 4, l1: 6, l2: 10, l3: 23, l4: 3, pi1: 9, pi2: 6, pi3: 4, pi4: 5 },
        12 => ProtProfile { bit_rate: 56, prot_level: 3, l1: 6, l2: 12, l3: 21, l4: 3, pi1: 16, pi2: 7, pi3: 6, pi4: 9 },
        13 => ProtProfile { bit_rate: 56, prot_level: 2, l1: 6, l2: 10, l3: 23, l4: 3, pi1: 23, pi2: 13, pi3: 8, pi4: 13 },
        14 => ProtProfile { bit_rate: 64, prot_level: 5, l1: 6, l2: 9, l3: 31, l4: 2, pi1: 5, pi2: 3, pi3: 2, pi4: 3 },
        15 => ProtProfile { bit_rate: 64, prot_level: 4, l1: 6, l2: 9, l3: 33, l4: 0, pi1: 11, pi2: 6, pi3: 5, pi4: -1 },
        16 => ProtProfile { bit_rate: 64, prot_level: 3, l1: 6, l2: 12, l3: 27, l4: 3, pi1: 16, pi2: 8, pi3: 6, pi4: 9 },
        17 => ProtProfile { bit_rate: 64, prot_level: 2, l1: 6, l2: 10, l3: 29, l4: 3, pi1: 23, pi2: 13, pi3: 8, pi4: 13 },
        18 => ProtProfile { bit_rate: 64, prot_level: 1, l1: 6, l2: 11, l3: 28, l4: 3, pi1: 24, pi2: 18, pi3: 12, pi4: 18 },
        19 => ProtProfile { bit_rate: 80, prot_level: 5, l1: 6, l2: 10, l3: 41, l4: 3, pi1: 6, pi2: 3, pi3: 2, pi4: 3 },
        20 => ProtProfile { bit_rate: 80, prot_level: 4, l1: 6, l2: 10, l3: 41, l4: 3, pi1: 11, pi2: 6, pi3: 5, pi4: 6 },
        21 => ProtProfile { bit_rate: 80, prot_level: 3, l1: 6, l2: 11, l3: 40, l4: 3, pi1: 16, pi2: 8, pi3: 6, pi4: 7 },
        22 => ProtProfile { bit_rate: 80, prot_level: 2, l1: 6, l2: 10, l3: 41, l4: 3, pi1: 23, pi2: 13, pi3: 8, pi4: 13 },
        23 => ProtProfile { bit_rate: 80, prot_level: 1, l1: 6, l2: 10, l3: 41, l4: 3, pi1: 24, pi2: 7, pi3: 12, pi4: 18 },
        24 => ProtProfile { bit_rate: 96, prot_level: 5, l1: 7, l2: 9, l3: 53, l4: 3, pi1: 5, pi2: 4, pi3: 2, pi4: 4 },
        25 => ProtProfile { bit_rate: 96, prot_level: 4, l1: 7, l2: 10, l3: 52, l4: 3, pi1: 9, pi2: 6, pi3: 4, pi4: 6 },
        26 => ProtProfile { bit_rate: 96, prot_level: 3, l1: 6, l2: 12, l3: 51, l4: 3, pi1: 16, pi2: 9, pi3: 6, pi4: 10 },
        27 => ProtProfile { bit_rate: 96, prot_level: 2, l1: 6, l2: 10, l3: 53, l4: 3, pi1: 22, pi2: 12, pi3: 9, pi4: 12 },
        28 => ProtProfile { bit_rate: 96, prot_level: 1, l1: 6, l2: 13, l3: 50, l4: 3, pi1: 24, pi2: 18, pi3: 13, pi4: 19 },
        29 => ProtProfile { bit_rate: 112, prot_level: 5, l1: 14, l2: 17, l3: 50, l4: 3, pi1: 5, pi2: 4, pi3: 2, pi4: 5 },
        30 => ProtProfile { bit_rate: 112, prot_level: 4, l1: 11, l2: 21, l3: 49, l4: 3, pi1: 9, pi2: 6, pi3: 4, pi4: 8 },
        31 => ProtProfile { bit_rate: 112, prot_level: 3, l1: 11, l2: 23, l3: 47, l4: 3, pi1: 16, pi2: 8, pi3: 6, pi4: 9 },
        32 => ProtProfile { bit_rate: 112, prot_level: 2, l1: 11, l2: 21, l3: 49, l4: 3, pi1: 23, pi2: 12, pi3: 9, pi4: 14 },
        33 => ProtProfile { bit_rate: 128, prot_level: 5, l1: 12, l2: 19, l3: 62, l4: 3, pi1: 5, pi2: 3, pi3: 2, pi4: 4 },
        34 => ProtProfile { bit_rate: 128, prot_level: 4, l1: 11, l2: 21, l3: 61, l4: 3, pi1: 11, pi2: 6, pi3: 5, pi4: 7 },
        35 => ProtProfile { bit_rate: 128, prot_level: 3, l1: 11, l2: 22, l3: 60, l4: 3, pi1: 16, pi2: 9, pi3: 6, pi4: 10 },
        36 => ProtProfile { bit_rate: 128, prot_level: 2, l1: 11, l2: 21, l3: 61, l4: 3, pi1: 22, pi2: 12, pi3: 9, pi4: 14 },
        37 => ProtProfile { bit_rate: 128, prot_level: 1, l1: 11, l2: 20, l3: 62, l4: 3, pi1: 24, pi2: 17, pi3: 13, pi4: 19 },
        38 => ProtProfile { bit_rate: 160, prot_level: 5, l1: 11, l2: 19, l3: 87, l4: 3, pi1: 5, pi2: 4, pi3: 2, pi4: 4 },
        39 => ProtProfile { bit_rate: 160, prot_level: 4, l1: 11, l2: 23, l3: 83, l4: 3, pi1: 11, pi2: 6, pi3: 5, pi4: 9 },
        40 => ProtProfile { bit_rate: 160, prot_level: 3, l1: 11, l2: 24, l3: 82, l4: 3, pi1: 16, pi2: 8, pi3: 6, pi4: 11 },
        41 => ProtProfile { bit_rate: 160, prot_level: 2, l1: 11, l2: 21, l3: 85, l4: 3, pi1: 22, pi2: 11, pi3: 9, pi4: 13 },
        42 => ProtProfile { bit_rate: 160, prot_level: 1, l1: 11, l2: 22, l3: 84, l4: 3, pi1: 24, pi2: 18, pi3: 12, pi4: 19 },
        43 => ProtProfile { bit_rate: 192, prot_level: 5, l1: 11, l2: 20, l3: 110, l4: 3, pi1: 6, pi2: 4, pi3: 2, pi4: 5 },
        44 => ProtProfile { bit_rate: 192, prot_level: 4, l1: 11, l2: 22, l3: 108, l4: 3, pi1: 10, pi2: 6, pi3: 4, pi4: 9 },
        45 => ProtProfile { bit_rate: 192, prot_level: 3, l1: 11, l2: 24, l3: 106, l4: 3, pi1: 16, pi2: 10, pi3: 6, pi4: 11 },
        46 => ProtProfile { bit_rate: 192, prot_level: 2, l1: 11, l2: 20, l3: 110, l4: 3, pi1: 22, pi2: 13, pi3: 9, pi4: 13 },
        47 => ProtProfile { bit_rate: 192, prot_level: 1, l1: 11, l2: 21, l3: 109, l4: 3, pi1: 24, pi2: 20, pi3: 13, pi4: 24 },
        48 => ProtProfile { bit_rate: 224, prot_level: 5, l1: 12, l2: 22, l3: 131, l4: 3, pi1: 8, pi2: 6, pi3: 2, pi4: 6 },
        49 => ProtProfile { bit_rate: 224, prot_level: 4, l1: 12, l2: 26, l3: 127, l4: 3, pi1: 12, pi2: 8, pi3: 4, pi4: 11 },
        50 => ProtProfile { bit_rate: 224, prot_level: 3, l1: 11, l2: 20, l3: 134, l4: 3, pi1: 16, pi2: 10, pi3: 7, pi4: 9 },
        51 => ProtProfile { bit_rate: 224, prot_level: 2, l1: 11, l2: 22, l3: 132, l4: 3, pi1: 24, pi2: 16, pi3: 10, pi4: 15 },
        52 => ProtProfile { bit_rate: 224, prot_level: 1, l1: 11, l2: 24, l3: 130, l4: 3, pi1: 24, pi2: 20, pi3: 12, pi4: 20 },
        53 => ProtProfile { bit_rate: 256, prot_level: 5, l1: 11, l2: 24, l3: 154, l4: 3, pi1: 6, pi2: 5, pi3: 2, pi4: 5 },
        54 => ProtProfile { bit_rate: 256, prot_level: 4, l1: 11, l2: 24, l3: 154, l4: 3, pi1: 12, pi2: 9, pi3: 5, pi4: 10 },
        55 => ProtProfile { bit_rate: 256, prot_level: 3, l1: 11, l2: 27, l3: 151, l4: 3, pi1: 16, pi2: 10, pi3: 7, pi4: 10 },
        56 => ProtProfile { bit_rate: 256, prot_level: 2, l1: 11, l2: 22, l3: 156, l4: 3, pi1: 24, pi2: 14, pi3: 10, pi4: 13 },
        57 => ProtProfile { bit_rate: 256, prot_level: 1, l1: 11, l2: 26, l3: 152, l4: 3, pi1: 24, pi2: 19, pi3: 14, pi4: 18 },
        58 => ProtProfile { bit_rate: 320, prot_level: 5, l1: 11, l2: 26, l3: 200, l4: 3, pi1: 8, pi2: 5, pi3: 2, pi4: 6 },
        59 => ProtProfile { bit_rate: 320, prot_level: 4, l1: 11, l2: 25, l3: 201, l4: 3, pi1: 13, pi2: 9, pi3: 5, pi4: 10 },
        60 => ProtProfile { bit_rate: 320, prot_level: 2, l1: 11, l2: 26, l3: 200, l4: 3, pi1: 24, pi2: 17, pi3: 9, pi4: 17 },
        61 => ProtProfile { bit_rate: 384, prot_level: 5, l1: 11, l2: 27, l3: 247, l4: 3, pi1: 8, pi2: 6, pi3: 2, pi4: 7 },
        62 => ProtProfile { bit_rate: 384, prot_level: 3, l1: 11, l2: 24, l3: 250, l4: 3, pi1: 16, pi2: 9, pi3: 7, pi4: 10 },
        _ => ProtProfile { bit_rate: 384, prot_level: 1, l1: 12, l2: 28, l3: 245, l4: 3, pi1: 24, pi2: 20, pi3: 14, pi4: 23 },
    }
}

/// Facts every table entry satisfies: positive bit rate, level 1..5,
/// puncturing vectors in 1..24 (PI4 = −1 only with an empty fourth run),
/// and runs that fill exactly 96 × bit rate coded bits.
pub open spec fn profile_sane(p: ProtProfile) -> bool {
    &&& p.bit_rate > 0
    &&& 1 <= p.prot_level <= 5
    &&& p.l1 >= 0 && p.l2 >= 0 && p.l3 >= 0 && p.l4 >= 0
    &&& 1 <= p.pi1 <= 24 && 1 <= p.pi2 <= 24 && 1 <= p.pi3 <= 24
    &&& (p.pi4 == -1 && p.l4 == 0 || 1 <= p.pi4 <= 24)
    &&& 128 * (p.l1 + p.l2 + p.l3 + p.l4) == 96 * p.bit_rate
}

/// Every entry of the UEP profile table satisfies `profile_sane`.
pub proof fn lemma_profiles_sane(i: int)
    requires 0 <= i < 64,
    ensures profile_sane(spec_profile(i)),
{
}

/// Index of the first profile with this (bit rate, level).
pub open spec fn is_first_match(br: i16, pl: i16, i: int) -> bool {
    &&& 0 <= i < 64
    &&& spec_profile(i).bit_rate == br && spec_profile(i).prot_level == pl
    &&& forall|j: int| 0 <= j < i ==> !(spec_profile(j).bit_rate == br && spec_profile(j).prot_level == pl)
}

pub open spec fn is_first_rate_match(br: i16, i: int) -> bool {
    &&& 0 <= i < 64
    &&& spec_profile(i).bit_rate == br
    &&& forall|j: int| 0 <= j < i ==> spec_profile(j).bit_rate != br
}

/// Position of the profile for exactly this (bit rate, level), if any.
pub fn find_profile(bit_rate: i16, prot_level: i16) -> (r: Option<usize>)
    ensures
        r matches Some(i) ==> is_first_match(bit_rate, prot_level, i as int),
        r is None ==> forall|j: int| 0 <= j < 64 ==> !(#[trigger] spec_profile(j).bit_rate == bit_rate && spec_profile(j).prot_level == prot_level),
{
    let mut i: usize = 0;
    while i < PROFILE_COUNT
        invariant
            i <= 64,
            forall|j: int| 0 <= j < i ==> !(#[trigger] spec_profile(j).bit_rate == bit_rate && spec_profile(j).prot_level == prot_level),
        decreases 64 - i,
    {
        let p = profile_entry(i);
        if p.bit_rate == bit_rate && p.prot_level == prot_level {
            return Some(i);
        }
        i = i + 1;
    }
    None
}

/// Profile used for a UEP sub-channel: the exact (bit rate, level) entry,
/// else the first entry with the same bit rate, else none.
pub fn resolve_uep_profile_index(bit_rate: i16, prot_level: i16) -> (r: Option<usize>)
    ensures
        (exists|j: int| 0 <= j < 64 && #[trigger] spec_profile(j).bit_rate == bit_rate && spec_profile(j).prot_level == prot_level)
            ==> (r matches Some(i) && is_first_match(bit_rate, prot_level, i as int)),
        !(exists|j: int| 0 <= j < 64 && #[trigger] spec_profile(j).bit_rate == bit_rate && spec_profile(j).prot_level == prot_level)
            ==> ((r matches Some(i) ==> is_first_rate_match(bit_rate, i as int))
                && (r is None ==> forall|j: int| 0 <= j < 64 ==> #[trigger] spec_profile(j).bit_rate != bit_rate)),
{
    if let Some(exact) = find_profile(bit_rate, prot_level) {
        return Some(exact);
    }
    let mut i: usize = 0;
    while i < PROFILE_COUNT
        invariant
            i <= 64,
            forall|j: int| 0 <= j < 64 ==> !(#[trigger] spec_profile(j).bit_rate == bit_rate && spec_profile(j).prot_level == prot_level),
            forall|j: int| 0 <= j < i ==> #[trigger] spec_profile(j).bit_rate != bit_rate,
        decreases 64 - i,
    {
        let p = profile_entry(i);
        if p.bit_rate == bit_rate {
            return Some(i);
        }
        i = i + 1;
    }
    None
}

/// Profile index that `UepProtection::new` uses (None: empty profile).
pub open spec fn uep_profile_choice(br: i16, pl: i16) -> Option<int> {
    if exists|j: int| 0 <= j < 64 && #[trigger] spec_profile(j).bit_rate == br && spec_profile(j).prot_level == pl {
        Some(choose|i: int| is_first_match(br, pl, i))
    } else if exists|j: int| 0 <= j < 64 && #[trigger] spec_profile(j).bit_rate == br {
        Some(choose|i: int| is_first_rate_match(br, i))
    } else {
        None
    }
}

/// Transmitted positions of a UEP-protected sub-channel.
pub open spec fn uep_mask(br: i16, pl: i16) -> Seq<bool> {
    if br <= 0 {
        empty_mask()
    } else {
        match uep_profile_choice(br, pl) {
            None => empty_mask(),
            Some(i) => {
                let p = spec_profile(i);
                puncture_mask((96 * br + 24) as nat, p.l1 as int, p.pi1 - 1, p.l2 as int, p.pi2 - 1,
                    p.l3 as int, p.pi3 - 1, p.l4 as int, if p.pi4 > 0 { p.pi4 - 1 } else { 0 })
            }
        }
    }
}

// ── depuncturing ─────────────────────────────────────────────────────────

/// Number of transmitted positions among the first `n` of a mask.
pub open spec fn marked_before(t: Seq<bool>, n: int) -> nat
    decreases n,
{
    if n <= 0 { 0 } else {
        marked_before(t, n - 1) + if n - 1 < t.len() && t[n - 1] { 1nat } else { 0 }
    }
}

/// Soft bit placed at position `i` of the mother-code block: transmitted
/// positions take the received soft bits in order, all others are erasures (0).
pub open spec fn depunctured_at(t: Seq<bool>, input: Seq<i16>, i: int) -> i16 {
    if i < t.len() && t[i] && marked_before(t, i) < input.len() { input[marked_before(t, i) as int] } else { 0 }
}

pub open spec fn depunctured(t: Seq<bool>, input: Seq<i16>, n: nat) -> Seq<i16> {
    Seq::new(n, |i: int| depunctured_at(t, input, i))
}

/// Number of transmitted positions in a mask.
pub fn count_marked_positions(index_table: &[bool]) -> (n: usize)
    ensures n == marked_before(index_table@, index_table@.len() as int),
{
    let mut n: usize = 0;
    let mut i: usize = 0;
    while i < index_table.len()
        invariant
            i <= index_table@.len(),
            n == marked_before(index_table@, i as int),
            n <= i,
        decreases index_table@.len() - i,
    {
        if index_table[i] { n = n + 1; }
        i = i + 1;
    }
    n
}

/// Spread the received soft bits over the transmitted positions of `block`
/// and zero the punctured ones. Returns the number of soft bits consumed.
pub fn depuncture_soft_bits(index_table: &[bool], input: &[i16], block: &mut [i16]) -> (consumed: usize)
    ensures
        final(block)@ == depunctured(index_table@, input@, old(block)@.len()),
        consumed == (if marked_before(index_table@, old(block)@.len() as int) < input@.len() {
            marked_before(index_table@, old(block)@.len() as int)
        } else {
            input@.len() as nat
        }),
{
    let n = block.len();
    let mut counter: usize = 0;
    let mut i: usize = 0;
    while i < n
        invariant
            i <= n,
            n == block@.len(),
            n == old(block)@.len(),
            counter == (if marked_before(index_table@, i as int) < input@.len() { marked_before(index_table@, i as int) } else { input@.len() as nat }),
            forall|t: int| 0 <= t < i ==> #[trigger] block@[t] == depunctured_at(index_table@, input@, t),
        decreases n - i,
    {
        if i < index_table.len() && index_table[i] && counter < input.len() {
            block[i] = input[counter];
            counter = counter + 1;
        } else {
            block[i] = 0;
        }
        i = i + 1;
    }
    assert(block@ =~= depunctured(index_table@, input@, n as nat));
    counter
}

// ── mask construction ────────────────────────────────────────────────────

/// Writes `blocks` groups of 128 positions from `start` with puncturing vector `pi`.
fn fill_segment(table: &mut Vec<bool>, start: usize, blocks: usize, pi: usize) -> (end: usize)
    requires
        pi < 24,
        start % 32 == 0,
        start + 128 * blocks <= old(table)@.len(),
    ensures
        end == start + 128 * blocks,
        final(table)@.len() == old(table)@.len(),
        forall|p: int| start <= p < end ==> #[trigger] final(table)@[p] == pcode(pi as int, p % 32),
        forall|p: int| 0 <= p < old(table)@.len() && !(start <= p < end) ==> #[trigger] final(table)@[p] == old(table)@[p],
{
    let tl = table.len();
    let end = start + 128 * blocks;
    let mut p: usize = start;
    while p < end
        invariant
            start <= p <= end,
            end == start + 128 * blocks,
            end <= table@.len(),
            start % 32 == 0,
            pi < 24,
            table@.len() == old(table)@.len(),
            forall|q: int| start <= q < p ==> #[trigger] table@[q] == pcode(pi as int, q % 32),
            forall|q: int| 0 <= q < old(table)@.len() && !(start <= q < p) ==> #[trigger] table@[q] == old(table)@[q],
        decreases end - p,
    {
        table[p] = pcode_bit(pi, p % 32);
        p = p + 1;
    }
    end
}

/// Writes the 24 tail positions from `start` with PI_8.
fn fill_tail(table: &mut Vec<bool>, start: usize) -> (end: usize)
    requires start + 24 <= old(table)@.len(),
    ensures
        end == start + 24,
        final(table)@.len() == old(table)@.len(),
        forall|p: int| start <= p < end ==> #[trigger] final(table)@[p] == pcode(7, p - start),
        forall|p: int| 0 <= p < old(table)@.len() && !(start <= p < end) ==> #[trigger] final(table)@[p] == old(table)@[p],
{
    let tl = table.len();
    let mut k: usize = 0;
    while k < 24
        invariant
            k <= 24,
            start + 24 <= tl,
            tl == table@.len(),
            table@.len() == old(table)@.len(),
            forall|q: int| start <= q < start + k ==> #[trigger] table@[q] == pcode(7, q - start),
            forall|q: int| 0 <= q < old(table)@.len() && !(start <= q < start + k) ==> #[trigger] table@[q] == old(table)@[q],
        decreases 24 - k,
    {
        table[start + k] = pcode_bit(7, k);
        k = k + 1;
    }
    start + 24
}

/// Builds the mask of four runs plus the tail into a table of `len` positions.
pub(crate) fn build_mask(len: usize, l1: usize, pi1: usize, l2: usize, pi2: usize, l3: usize, pi3: usize, l4: usize, pi4: usize) -> (t: Vec<bool>)
    requires
        pi1 < 24, pi2 < 24, pi3 < 24, pi4 < 24,
        128 * (l1 + l2 + l3 + l4) + 24 <= len,
    ensures
        t@ == puncture_mask(len as nat, l1 as int, pi1 as int, l2 as int, pi2 as int, l3 as int, pi3 as int, l4 as int, pi4 as int),
{
    let mut t: Vec<bool> = vec![false; len];
    let e1 = fill_segment(&mut t, 0, l1, pi1);
    let e2 = fill_segment(&mut t, e1, l2, pi2);
    let e3 = fill_segment(&mut t, e2, l3, pi3);
    let e4 = fill_segment(&mut t, e3, l4, pi4);
    let _ = fill_tail(&mut t, e4);
    assert forall|p: int| 0 <= p < len implies #[trigger] t@[p] == segment_bit(p, l1 as int, pi1 as int, l2 as int, pi2 as int, l3 as int, pi3 as int, l4 as int, pi4 as int) by {
    }
    assert(t@ =~= puncture_mask(len as nat, l1 as int, pi1 as int, l2 as int, pi2 as int, l3 as int, pi3 as int, l4 as int, pi4 as int));
    t
}


proof fn lemma_first_match_unique(br: i16, pl: i16, a: int, b: int)
    requires is_first_match(br, pl, a), is_first_match(br, pl, b),
    ensures a == b,
{
    if a < b {
        assert(!(spec_profile(a).bit_rate == br && spec_profile(a).prot_level == pl));
    } else if b < a {
        assert(!(spec_profile(b).bit_rate == br && spec_profile(b).prot_level == pl));
    }
}

proof fn lemma_first_rate_match_unique(br: i16, a: int, b: int)
    requires is_first_rate_match(br, a), is_first_rate_match(br, b),
    ensures a == b,
{
    if a < b {
        assert(spec_profile(a).bit_rate != br);
    } else if b < a {
        assert(spec_profile(b).bit_rate != br);
    }
}

/// The profile index that `resolve_uep_profile_index` returns is the one
/// that `uep_profile_choice` describes.
proof fn lemma_resolve_matches_choice(br: i16, pl: i16, r: Option<usize>)
    requires
        (exists|j: int| 0 <= j < 64 && #[trigger] spec_profile(j).bit_rate == br && spec_profile(j).prot_level == pl)
            ==> (r matches Some(i) && is_first_match(br, pl, i as int)),
        !(exists|j: int| 0 <= j < 64 && #[trigger] spec_profile(j).bit_rate == br && spec_profile(j).prot_level == pl)
            ==> ((r matches Some(i) ==> is_first_rate_match(br, i as int))
                && (r is None ==> forall|j: int| 0 <= j < 64 ==> #[trigger] spec_profile(j).bit_rate != br)),
    ensures
        match r { Some(i) => uep_profile_choice(br, pl) == Some(i as int), None => uep_profile_choice(br, pl) is None },
{
    if exists|j: int| 0 <= j < 64 && #[trigger] spec_profile(j).bit_rate == br && spec_profile(j).prot_level == pl {
        let i = r.unwrap() as int;
        let c = choose|k: int| is_first_match(br, pl, k);
        lemma_first_match_unique(br, pl, i, c);
    } else if exists|j: int| 0 <= j < 64 && #[trigger] spec_profile(j).bit_rate == br {
        let j = choose|j: int| 0 <= j < 64 && #[trigger] spec_profile(j).bit_rate == br;
        if r is None {
            assert(spec_profile(j).bit_rate != br);
        } else {
            let i = r.unwrap() as int;
            let c = choose|k: int| is_first_rate_match(br, k);
            lemma_first_rate_match_unique(br, i, c);
        }
    } else {
        if r is Some {
            let i = r.unwrap() as int;
            assert(spec_profile(i).bit_rate == br);
        }
    }
}

/// EEP sub-channel decoder: depuncturing mask plus Viterbi decoder.
pub struct EepProtection {
    index_table: Vec<bool>,
    viterbi_block: Vec<i16>,
    viterbi: ViterbiSpiral,
}

/// The output written by a deconvolution: the first `frame_bits` bytes
/// are the Viterbi decoding of the soft bits `v` depunctured with `mask`;
/// the rest of the output is unchanged.
pub open spec fn decoded_into(mask: Seq<bool>, frame_bits: nat, v: Seq<i16>, out_before: Seq<u8>, out_after: Seq<u8>) -> bool {
    &&& out_after.len() == out_before.len()
    &&& forall|i: int| 0 <= i < out_before.len() ==> #[trigger] out_after[i] == (
            if i < frame_bits {
                viterbi_decode(frame_bits, depunctured(mask, v, mask.len()))[i]
            } else {
                out_before[i]
            })
}

impl EepProtection {
    /// What `deconvolve` does: the protection keeps its mask and frame
    /// length, and the first `frame_bits` output bytes become the Viterbi
    /// decoding of the depunctured soft bits; the rest of the output stays.
    pub open spec fn deconvolve_effect(self, v: Seq<i16>, out_before: Seq<u8>, next: Self, out_after: Seq<u8>) -> bool {
        &&& next.wf()
        &&& next.mask() == self.mask()
        &&& next.frame_bits() == self.frame_bits()
        &&& decoded_into(self.mask(), self.frame_bits(), v, out_before, out_after)
    }

    /// Transmitted positions of the mother-code block.
    pub closed spec fn mask(&self) -> Seq<bool> {
        self.index_table@
    }

    /// Data bits per decoded frame.
    pub closed spec fn frame_bits(&self) -> nat {
        self.viterbi.spec_frame_bits()
    }

    pub closed spec fn wf(&self) -> bool {
        &&& self.viterbi.wf()
        &&& self.viterbi_block.len() == self.index_table.len()
    }

    /// Profile for a sub-channel of `bit_rate` kbit/s at EEP level
    /// `prot_level` (bit 2 set: B profiles). A non-positive bit rate gives an
    /// empty profile that decodes nothing.
    pub fn new(bit_rate: i16, prot_level: i16) -> (p: Self)
        requires eep_params_ok(bit_rate, prot_level),
        ensures
            p.wf(),
            p.mask() == eep_mask(bit_rate, prot_level),
            p.frame_bits() == (if bit_rate > 0 { 24 * bit_rate } else { 0 }),
    {
        if !is_valid_protection_bit_rate(bit_rate) {
            let index_table: Vec<bool> = vec![false; 24];
            assert(index_table@ =~= empty_mask());
            return EepProtection { index_table, viterbi_block: vec![0i16; 24], viterbi: ViterbiSpiral::new(0) };
        }
        let br = bit_rate as usize;
        let out_size = 24 * br;
        let l1: usize;
        let l2: usize;
        let pi1: usize;
        let pi2: usize;
        if (prot_level & 4) == 0 {
            let lv = prot_level & 0x03;
            if lv == 0 {
                l1 = 6 * br / 8 - 3; l2 = 3; pi1 = 23; pi2 = 22;
            } else if lv == 1 {
                if bit_rate == 8 {
                    l1 = 5; l2 = 1; pi1 = 12; pi2 = 11;
                } else {
                    l1 = 2 * br / 8 - 3; l2 = 4 * br / 8 + 3; pi1 = 13; pi2 = 12;
                }
            } else if lv == 2 {
                l1 = 6 * br / 8 - 3; l2 = 3; pi1 = 7; pi2 = 6;
            } else {
                l1 = 4 * br / 8 - 3; l2 = 2 * br / 8 + 3; pi1 = 2; pi2 = 1;
            }
        } else {
            let lv = prot_level & 0x03;
            l1 = 24 * br / 32 - 3;
            l2 = 3;
            if lv == 3 { pi1 = 1; pi2 = 0; }
            else if lv == 2 { pi1 = 3; pi2 = 2; }
            else if lv == 1 { pi1 = 5; pi2 = 4; }
            else { pi1 = 9; pi2 = 8; }
        }
        assert(128 * (l1 + l2) <= 96 * br);
        let index_table = build_mask(out_size * 4 + 24, l1, pi1, l2, pi2, 0, 0, 0, 0);
        EepProtection {
            index_table,
            viterbi_block: vec![0i16; out_size * 4 + 24],
            viterbi: ViterbiSpiral::new(out_size),
        }
    }

    /// The depuncturing mask.
    pub fn index_table(&self) -> (t: &[bool])
        ensures t@ == self.mask(),
    {
        self.index_table.as_slice()
    }

    /// Depuncture the received soft bits `v` and Viterbi-decode them into
    /// `out_buffer` (first `frame_bits` positions).
    pub fn deconvolve(&mut self, v: &[i16], out_buffer: &mut [u8])
        requires old(self).wf(),
        ensures
            old(self).deconvolve_effect(v@, old(out_buffer)@, *final(self), final(out_buffer)@),
    {
        depuncture_soft_bits(self.index_table.as_slice(), v, self.viterbi_block.as_mut_slice());
        self.viterbi.deconvolve(self.viterbi_block.as_slice(), out_buffer);
    }
}

/// UEP sub-channel decoder.
pub struct UepProtection {
    index_table: Vec<bool>,
    viterbi_block: Vec<i16>,
    viterbi: ViterbiSpiral,
}

impl UepProtection {
    /// What `deconvolve` does: the protection keeps its mask and frame
    /// length, and the first `frame_bits` output bytes become the Viterbi
    /// decoding of the depunctured soft bits; the rest of the output stays.
    pub open spec fn deconvolve_effect(self, v: Seq<i16>, out_before: Seq<u8>, next: Self, out_after: Seq<u8>) -> bool {
        &&& next.wf()
        &&& next.mask() == self.mask()
        &&& next.frame_bits() == self.frame_bits()
        &&& decoded_into(self.mask(), self.frame_bits(), v, out_before, out_after)
    }

    pub closed spec fn mask(&self) -> Seq<bool> {
        self.index_table@
    }

    pub closed spec fn frame_bits(&self) -> nat {
        self.viterbi.spec_frame_bits()
    }

    pub closed spec fn wf(&self) -> bool {
        &&& self.viterbi.wf()
        &&& self.viterbi_block.len() == self.index_table.len()
    }

    /// Profile for a UEP sub-channel. Unknown (bit rate, level) pairs fall
    /// back to a profile of the same bit rate; unknown bit rates and
    /// non-positive ones give an empty profile.
    pub fn new(bit_rate: i16, prot_level: i16) -> (p: Self)
        ensures
            p.wf(),
            p.mask() == uep_mask(bit_rate, prot_level),
            p.frame_bits() == (if bit_rate > 0 && uep_profile_choice(bit_rate, prot_level) is Some { 24 * bit_rate } else { 0 }),
    {
        if !is_valid_protection_bit_rate(bit_rate) {
            let index_table: Vec<bool> = vec![false; 24];
            assert(index_table@ =~= empty_mask());
            return UepProtection { index_table, viterbi_block: vec![0i16; 24], viterbi: ViterbiSpiral::new(0) };
        }
        let r = resolve_uep_profile_index(bit_rate, prot_level);
        proof { lemma_resolve_matches_choice(bit_rate, prot_level, r); }
        let index = match r {
            Some(i) => i,
            None => {
                let index_table: Vec<bool> = vec![false; 24];
                assert(index_table@ =~= empty_mask());
                return UepProtection { index_table, viterbi_block: vec![0i16; 24], viterbi: ViterbiSpiral::new(0) };
            }
        };
        let p = profile_entry(index);
        proof { lemma_profiles_sane(index as int); }
        let br = bit_rate as usize;
        let out_size = 24 * br;
        let pi4: usize = if p.pi4 > 0 { (p.pi4 - 1) as usize } else { 0 };
        let index_table = build_mask(out_size * 4 + 24,
            p.l1 as usize, (p.pi1 - 1) as usize,
            p.l2 as usize, (p.pi2 - 1) as usize,
            p.l3 as usize, (p.pi3 - 1) as usize,
            p.l4 as usize, pi4);
        UepProtection {
            index_table,
            viterbi_block: vec![0i16; out_size * 4 + 24],
            viterbi: ViterbiSpiral::new(out_size),
        }
    }

    pub fn index_table(&self) -> (t: &[bool])
        ensures t@ == self.mask(),
    {
        self.index_table.as_slice()
    }

    pub fn deconvolve(&mut self, v: &[i16], out_buffer: &mut [u8])
        requires old(self).wf(),
        ensures
            old(self).deconvolve_effect(v@, old(out_buffer)@, *final(self), final(out_buffer)@),
    {
        depuncture_soft_bits(self.index_table.as_slice(), v, self.viterbi_block.as_mut_slice());
        self.viterbi.deconvolve(self.viterbi_block.as_slice(), out_buffer);
    }
}

/// Protection of one sub-channel, equal or unequal.
pub enum Protection {
    Eep(EepProtection),
    Uep(UepProtection),
}

impl Protection {
    pub open spec fn wf(&self) -> bool {
        match self { Protection::Eep(p) => p.wf(), Protection::Uep(p) => p.wf() }
    }

    pub open spec fn mask(&self) -> Seq<bool> {
        match self { Protection::Eep(p) => p.mask(), Protection::Uep(p) => p.mask() }
    }

    pub open spec fn frame_bits(&self) -> nat {
        match self { Protection::Eep(p) => p.frame_bits(), Protection::Uep(p) => p.frame_bits() }
    }

    pub fn deconvolve(&mut self, v: &[i16], out_buffer: &mut [u8])
        requires old(self).wf(),
        ensures
            match (*old(self), *final(self)) {
                (Protection::Eep(e), Protection::Eep(e2)) => e.deconvolve_effect(v@, old(out_buffer)@, e2, final(out_buffer)@),
                (Protection::Uep(u), Protection::Uep(u2)) => u.deconvolve_effect(v@, old(out_buffer)@, u2, final(out_buffer)@),
                _ => false,
            },
            final(self).wf(),
            final(self).mask() == old(self).mask(),
            final(self).frame_bits() == old(self).frame_bits(),
            decoded_into(old(self).mask(), old(self).frame_bits(), v@, old(out_buffer)@, final(out_buffer)@),
    {
        match self {
            Protection::Eep(p) => p.deconvolve(v, out_buffer),
            Protection::Uep(p) => p.deconvolve(v, out_buffer),
        }
    }
}

} // verus!
