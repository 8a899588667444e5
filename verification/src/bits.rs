//! Bit-array helpers shared by the FIC/FIB decoders: big-endian bit-field
//! extraction, the FIB CRC check, and the sub-channel descriptor.
//!
//! A "bit array" holds one bit per byte (0 or 1), most significant bit
//! first, as produced by the Viterbi decoder.

use vstd::prelude::*;
use vstd::arithmetic::power2::{pow2, lemma_pow2_unfold, lemma2_to64};

verus! {

/// Band selector for Band III (VHF) in the channel table lookups.
pub const BAND_III: u8 = 64;
/// Band selector for L band.
pub const L_BAND: u8 = 65;

/// The bit at position `i` of a bit array; positions outside the array read as 0.
pub open spec fn bit_at(d: Seq<u8>, i: int) -> nat {
    if 0 <= i < d.len() { (d[i] & 1u8) as nat } else { 0 }
}

/// Unsigned big-endian value of the `n` bits starting at position `off`.
pub open spec fn bits_value(d: Seq<u8>, off: int, n: nat) -> nat
    decreases n,
{
    if n == 0 { 0 } else { bits_value(d, off, (n - 1) as nat) * 2 + bit_at(d, off + n - 1) }
}

/// A bit read from a byte is 0 or 1.
proof fn lemma_bit_at_is_bit(d: Seq<u8>, i: int)
    ensures bit_at(d, i) <= 1,
{
    if 0 <= i < d.len() {
        let x = d[i];
        assert(x & 1u8 <= 1u8) by (bit_vector);
    }
}

/// A value read from `n` bits is below 2^n.
pub proof fn lemma_bits_value_bound(d: Seq<u8>, off: int, n: nat)
    ensures bits_value(d, off, n) < pow2(n),
    decreases n,
{
    if n == 0 {
        lemma2_to64();
    } else {
        lemma_bits_value_bound(d, off, (n - 1) as nat);
        lemma_bit_at_is_bit(d, off + n - 1);
        lemma_pow2_unfold(n);
    }
}

/// The bit at `i` of `d` as 0 or 1 (0 outside the array).
pub fn get_bit(d: &[u8], i: usize) -> (b: u32)
    ensures b == bit_at(d@, i as int), b <= 1,
{
    proof { lemma_bit_at_is_bit(d@, i as int); }
    if i < d.len() { (d[i] & 1) as u32 } else { 0 }
}

/// Read `size` bits (at most 32) starting at bit `offset`, big-endian.
pub fn get_bits(d: &[u8], offset: usize, size: usize) -> (v: u32)
    requires
        size <= 32,
        offset + size <= usize::MAX,
    ensures
        v == bits_value(d@, offset as int, size as nat),
{
    let mut res: u32 = 0;
    let mut i: usize = 0;
    while i < size
        invariant
            i <= size <= 32,
            offset + size <= usize::MAX,
            res == bits_value(d@, offset as int, i as nat),
        decreases size - i,
    {
        proof {
            lemma_bits_value_bound(d@, offset as int, i as nat);
            vstd::arithmetic::power2::lemma_pow2_strictly_increases(i as nat, 32);
            lemma2_to64();
        }
        let b = get_bit(d, offset + i);
        res = res * 2 + b;
        i = i + 1;
    }
    res
}

/// Read 32 bits starting at bit `offset` (used for 32-bit service identifiers).
pub fn get_lbits(d: &[u8], offset: usize, size: usize) -> (v: u32)
    requires
        size <= 32,
        offset + size <= usize::MAX,
    ensures
        v == bits_value(d@, offset as int, size as nat),
{
    get_bits(d, offset, size)
}

/// One step of the CRC-16/CCITT shift register (polynomial 0x1021).
pub open spec fn crc_step(reg: u16, bit: nat) -> u16 {
    let top = ((reg >> 15u16) & 1u16) as nat;
    let shifted = reg << 1u16;
    if top != bit { shifted ^ 0x1021u16 } else { shifted }
}

/// CRC register after feeding the first `n` bits of `d` into a register
/// initialised to all ones (ETSI EN 300 401 §5.2.1).
pub open spec fn crc16(d: Seq<u8>, n: nat) -> u16
    decreases n,
{
    if n == 0 { 0xFFFFu16 } else { crc_step(crc16(d, (n - 1) as nat), bit_at(d, n - 1)) }
}

/// A block of `size` bits passes the check when its last 16 bits carry the
/// one's complement of the CRC of the bits before them.
pub open spec fn crc_ok(d: Seq<u8>, size: nat) -> bool {
    size >= 16 && ((crc16(d, (size - 16) as nat) ^ 0xFFFFu16) as nat) == bits_value(
        d,
        size - 16,
        16,
    )
}

/// CRC check of a FIB (or any bit block whose last 16 bits hold the
/// inverted CRC-16/CCITT of the preceding bits).
pub fn check_crc_bits(bits: &[u8], size: usize) -> (ok: bool)
    ensures ok == crc_ok(bits@, size as nat),
{
    if size < 16 {
        return false;
    }
    let n = size - 16;
    let mut reg: u16 = 0xFFFF;
    let mut i: usize = 0;
    while i < n
        invariant
            i <= n,
            n == size - 16,
            reg == crc16(bits@, i as nat),
        decreases n - i,
    {
        let b = get_bit(bits, i);
        let top = (reg >> 15) & 1;
        let shifted = reg << 1;
        reg = if top as u32 != b { shifted ^ 0x1021 } else { shifted };
        i = i + 1;
    }
    let received = get_bits(bits, n, 16);
    (reg ^ 0xFFFF) as u32 == received
}

/// Sub-channel organisation as announced in FIG 0/1 (ETSI EN 300 401 §6.2.1).
#[derive(Clone, Copy, Debug, PartialEq, Eq)]
pub struct ChannelData {
    pub in_use: bool,
    pub id: i16,
    pub start_cu: i16,
    pub uep_flag: bool,
    pub protlev: i16,
    pub size: i16,
    pub bitrate: i16,
}

impl ChannelData {
    /// A descriptor of a sub-channel that no FIG 0/1 has announced.
    pub fn unused() -> (c: Self)
        ensures c == ChannelData::spec_unused(),
    {
        ChannelData { in_use: false, id: 0, start_cu: 0, uep_flag: false, protlev: 0, size: 0, bitrate: 0 }
    }

    pub open spec fn spec_unused() -> Self {
        ChannelData { in_use: false, id: 0, start_cu: 0, uep_flag: false, protlev: 0, size: 0, bitrate: 0 }
    }
}

} // verus!
