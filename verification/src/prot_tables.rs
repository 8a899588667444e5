//! Puncturing vectors PI_1 .. PI_24 (ETSI EN 300 401 §11.1.2, Table 29).
//!
//! Each vector has 32 positions grouped in eight blocks of four. PI_n keeps
//! 8 + n of the 32 mother-code bits: every block keeps its first bit, and
//! the n extra bits are handed out block by block in the order
//! 0, 4, 2, 6, 1, 5, 3, 7, filling the second, then the third, then the
//! fourth position of the blocks.

use vstd::prelude::*;
use crate::counting::{count_where, lemma_count_split};

verus! {

/// Rank of block `b` (0..8) in the hand-out order 0, 4, 2, 6, 1, 5, 3, 7.
pub open spec fn block_rank(b: int) -> int {
    if b == 0 { 0 } else if b == 1 { 4 } else if b == 2 { 2 } else if b == 3 { 6 }
    else if b == 4 { 1 } else if b == 5 { 5 } else if b == 6 { 3 } else { 7 }
}

/// Number of kept bits in block `b` of PI_n.
pub open spec fn kept_in_block(n: int, b: int) -> int {
    1 + (if n > block_rank(b) { 1int } else { 0 }) + (if n > 8 + block_rank(b) { 1int } else { 0 })
        + (if n > 16 + block_rank(b) { 1int } else { 0 })
}

/// Whether position `j` (0..32) of puncturing vector PI_{idx+1} keeps its bit.
pub open spec fn pcode(idx: int, j: int) -> bool {
    (j % 4) < kept_in_block(idx + 1, j / 4)
}

/// Exec counterpart of `pcode`.
pub fn pcode_bit(idx: usize, j: usize) -> (b: bool)
    requires idx < 24, j < 32,
    ensures b == pcode(idx as int, j as int),
{
    let blk = j / 4;
    let rank: usize = if blk == 0 { 0 } else if blk == 1 { 4 } else if blk == 2 { 2 }
        else if blk == 3 { 6 } else if blk == 4 { 1 } else if blk == 5 { 5 }
        else if blk == 6 { 3 } else { 7 };
    let n = idx + 1;
    let mut kept: usize = 1;
    if n > rank { kept = kept + 1; }
    if n > 8 + rank { kept = kept + 1; }
    if n > 16 + rank { kept = kept + 1; }
    (j % 4) < kept
}

/// Positions of PI_{idx+1} that keep their bit, as a predicate.
pub open spec fn pcode_fn(idx: int) -> spec_fn(int) -> bool {
    |j: int| pcode(idx, j)
}

/// Block `b` of PI_n keeps its first `kept_in_block(n, b)` positions.
proof fn lemma_block_count(idx: int, b: int)
    requires 0 <= idx < 24, 0 <= b < 8,
    ensures count_where(pcode_fn(idx), 4 * b, 4 * b + 4) == kept_in_block(idx + 1, b),
{
    reveal_with_fuel(count_where, 5);
    let f = pcode_fn(idx);
    assert((4 * b) / 4 == b && (4 * b) % 4 == 0);
    assert((4 * b + 1) / 4 == b && (4 * b + 1) % 4 == 1);
    assert((4 * b + 2) / 4 == b && (4 * b + 2) % 4 == 2);
    assert((4 * b + 3) / 4 == b && (4 * b + 3) % 4 == 3);
    assert(f(4 * b) == pcode(idx, 4 * b));
    assert(f(4 * b + 1) == pcode(idx, 4 * b + 1));
    assert(f(4 * b + 2) == pcode(idx, 4 * b + 2));
    assert(f(4 * b + 3) == pcode(idx, 4 * b + 3));
}

/// PI_n keeps `8 + n` of its 32 positions (Table 29): PI_{idx+1} keeps
/// `idx + 9`.
pub proof fn lemma_pcode_keeps(idx: int)
    requires 0 <= idx < 24,
    ensures count_where(pcode_fn(idx), 0, 32) == idx + 9,
{
    reveal_with_fuel(blocks_kept, 9);
    let f = pcode_fn(idx);
    lemma_blocks_add_up(f, idx, 8);
}

proof fn lemma_blocks_add_up(f: spec_fn(int) -> bool, idx: int, b: int)
    requires 0 <= idx < 24, 0 <= b <= 8, f == pcode_fn(idx),
    ensures count_where(f, 0, 4 * b) == blocks_kept(idx + 1, b),
    decreases b,
{
    if b > 0 {
        lemma_blocks_add_up(f, idx, b - 1);
        lemma_block_count(idx, b - 1);
        lemma_count_split(f, 0, 4 * (b - 1), 4 * b);
    }
}

/// Kept positions of the first `b` blocks of PI_n.
pub open spec fn blocks_kept(n: int, b: int) -> int
    decreases b,
{
    if b <= 0 { 0 } else { blocks_kept(n, b - 1) + kept_in_block(n, b - 1) }
}

/// The first 24 positions of PI_8 (the tail puncturing) keep 12.
pub proof fn lemma_tail_keeps()
    ensures count_where(pcode_fn(7), 0, 24) == 12,
{
    lemma_blocks_add_up(pcode_fn(7), 7, 6);
    reveal_with_fuel(blocks_kept, 7);
}

} // verus!
