//! Energy-dispersal PRBS (ETSI EN 300 401 §10.1): generator polynomial
//! x^9 + x^5 + 1, register initialised to all ones.

use vstd::prelude::*;

verus! {

/// Register contents (bit j = stage j) after `n` steps.
pub open spec fn prbs_reg(n: nat) -> u16
    decreases n,
{
    if n == 0 {
        0x1FFu16
    } else {
        let r = prbs_reg((n - 1) as nat);
        let b = ((r >> 8u16) & 1u16) ^ ((r >> 4u16) & 1u16);
        ((r << 1u16) | b) & 0x1FFu16
    }
}

/// PRBS bit number `n` (0-based).
pub open spec fn prbs_bit(n: nat) -> u8 {
    let r = prbs_reg(n);
    (((r >> 8u16) & 1u16) ^ ((r >> 4u16) & 1u16)) as u8
}

pub open spec fn prbs_seq(len: nat) -> Seq<u8> {
    Seq::new(len, |i: int| prbs_bit(i as nat))
}

/// The first `len` PRBS bits (0 or 1 each).
pub fn prbs_sequence(len: usize) -> (v: Vec<u8>)
    ensures v@ == prbs_seq(len as nat),
{
    let mut v: Vec<u8> = Vec::new();
    let mut reg: u16 = 0x1FF;
    let mut i: usize = 0;
    while i < len
        invariant
            i <= len,
            reg == prbs_reg(i as nat),
            v@.len() == i,
            forall|t: int| 0 <= t < i ==> #[trigger] v@[t] == prbs_bit(t as nat),
        decreases len - i,
    {
        let b = ((reg >> 8) & 1) ^ ((reg >> 4) & 1);
        assert(b <= 1u16) by (bit_vector) requires b == ((reg >> 8u16) & 1u16) ^ ((reg >> 4u16) & 1u16);
        v.push(b as u8);
        reg = ((reg << 1) | b) & 0x1FF;
        i = i + 1;
    }
    assert(v@ =~= prbs_seq(len as nat));
    v
}

/// Every PRBS bit is 0 or 1.
pub proof fn lemma_prbs_bits_binary(n: nat)
    ensures prbs_bit(n) <= 1,
{
    let r = prbs_reg(n);
    assert((((r >> 8u16) & 1u16) ^ ((r >> 4u16) & 1u16)) <= 1u16) by (bit_vector);
}

} // verus!
