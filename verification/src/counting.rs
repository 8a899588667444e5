//! Counting the positions of a range at which a predicate holds, with the
//! facts needed to add counts up over consecutive ranges.

use vstd::prelude::*;

verus! {

/// Number of positions `p` with `lo <= p < hi` at which `f(p)` holds.
pub open spec fn count_where(f: spec_fn(int) -> bool, lo: int, hi: int) -> nat
    decreases hi - lo,
{
    if hi <= lo { 0 } else { count_where(f, lo, hi - 1) + if f(hi - 1) { 1nat } else { 0nat } }
}

/// The entries of a sequence of flags, as a predicate on positions.
pub open spec fn flags(s: Seq<bool>) -> spec_fn(int) -> bool {
    |p: int| s[p]
}

/// Number of `true` entries of a sequence of flags.
pub open spec fn count_true(s: Seq<bool>) -> nat {
    count_where(flags(s), 0, s.len() as int)
}

/// Counts over two consecutive ranges add up.
pub proof fn lemma_count_split(f: spec_fn(int) -> bool, lo: int, mid: int, hi: int)
    requires lo <= mid <= hi,
    ensures count_where(f, lo, hi) == count_where(f, lo, mid) + count_where(f, mid, hi),
    decreases hi - mid,
{
    if hi > mid {
        lemma_count_split(f, lo, mid, hi - 1);
    }
}

/// Predicates that agree on a range count alike on it.
pub proof fn lemma_count_ext(f: spec_fn(int) -> bool, g: spec_fn(int) -> bool, lo: int, hi: int)
    requires forall|p: int| lo <= p < hi ==> #[trigger] f(p) == g(p),
    ensures count_where(f, lo, hi) == count_where(g, lo, hi),
    decreases hi - lo,
{
    if hi > lo {
        lemma_count_ext(f, g, lo, hi - 1);
    }
}

/// A count never exceeds the length of the range.
pub proof fn lemma_count_bound(f: spec_fn(int) -> bool, lo: int, hi: int)
    ensures hi >= lo ==> count_where(f, lo, hi) <= hi - lo,
    decreases hi - lo,
{
    if hi > lo {
        lemma_count_bound(f, lo, hi - 1);
    }
}

/// Counting over `[lo, hi)` is counting the shifted predicate over `[0, hi - lo)`.
pub proof fn lemma_count_shift(f: spec_fn(int) -> bool, lo: int, hi: int)
    ensures count_where(f, lo, hi) == count_where(|j: int| f(j + lo), 0, hi - lo),
    decreases hi - lo,
{
    if hi > lo {
        lemma_count_shift(f, lo, hi - 1);
        let g = |j: int| f(j + lo);
        assert(g(hi - 1 - lo) == f(hi - 1));
    }
}

/// A run of `m` periods of length `len` each holding `k` positions counts
/// `m * k`.
pub proof fn lemma_count_periods(f: spec_fn(int) -> bool, lo: int, len: int, m: nat, k: nat)
    requires
        len >= 0,
        forall|i: int| 0 <= i < m ==> #[trigger] count_where(f, lo + i * len, lo + i * len + len) == k,
    ensures count_where(f, lo, lo + m * len) == m * k,
    decreases m,
{
    if m > 0 {
        let m1 = (m - 1) as nat;
        lemma_count_periods(f, lo, len, m1, k);
        assert(lo + m * len == lo + m1 * len + len) by (nonlinear_arith) requires m == m1 + 1;
        assert(lo <= lo + m1 * len) by (nonlinear_arith) requires len >= 0;
        lemma_count_split(f, lo, lo + m1 * len, lo + m * len);
        assert(count_where(f, lo + m1 * len, lo + m1 * len + len) == k);
        assert(m * k == m1 * k + k) by (nonlinear_arith) requires m == m1 + 1;
    } else {
        assert(m * len == 0 && m * k == 0) by (nonlinear_arith) requires m == 0;
    }
}

} // verus!
