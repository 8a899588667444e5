//! 95th percentile of frame pacing delays, from raw samples or from a
//! histogram of them.

use vstd::prelude::*;

verus! {

pub open spec fn sorted_u32(s: Seq<u32>) -> bool {
    forall|i: int, j: int| 0 <= i <= j < s.len() ==> s[i] <= s[j]
}

/// `slice::sort_unstable`: the same values in ascending order.
#[verifier::external_body]
fn sort_samples(v: &mut Vec<u32>)
    ensures
        final(v)@.to_multiset() == old(v)@.to_multiset(),
        final(v)@.len() == old(v)@.len(),
        sorted_u32(final(v)@),
{
    v.sort_unstable()
}

/// Position of the 95th percentile among `n` ordered values.
pub open spec fn rank95(n: int) -> int {
    if n * 95 >= 1 { (n * 95 - 1) / 100 } else { 0 }
}

/// The 95th percentile of the samples: the value at position
/// `(95 n − 1) / 100` of the samples in ascending order (0 for none).
pub fn percentile95(samples: &[u32]) -> (r: u32)
    requires samples@.len() * 95 <= usize::MAX,
    ensures
        samples@.len() == 0 ==> r == 0,
        samples@.len() > 0 ==> exists|s: Seq<u32>| #![trigger s.to_multiset()]
            s.to_multiset() == samples@.to_multiset() && s.len() == samples@.len() && sorted_u32(s)
            && r == s[rank95(samples@.len() as int)],
{
    if samples.len() == 0 {
        return 0;
    }
    let mut sorted: Vec<u32> = vstd::slice::slice_to_vec(samples);
    sort_samples(&mut sorted);
    let n = sorted.len();
    let prod = n * 95;
    let idx = (if prod >= 1 { prod - 1 } else { 0 }) / 100;
    assert(idx < n) by (nonlinear_arith) requires idx == (if prod >= 1 { prod - 1 } else { 0 }) / 100, prod == n * 95, n >= 1;
    let i = if idx < n - 1 { idx } else { n - 1 };
    let r = sorted[i];
    assert(sorted@.to_multiset() == samples@.to_multiset());
    r
}

/// Index of the first histogram bucket at which the running count
/// exceeds `rank`, looking from bucket `i` with `cum` counted before it;
/// `None` if the counts never exceed it.
pub open spec fn first_bucket_over(hist: Seq<u32>, rank: int, i: int, cum: int) -> Option<int>
    decreases hist.len() - i,
{
    if i < 0 || i >= hist.len() {
        None
    } else if cum + hist[i] > rank {
        Some(i)
    } else {
        first_bucket_over(hist, rank, i + 1, cum + hist[i])
    }
}

/// The 95th percentile from a histogram of `total` values (bucket `v`
/// counts the value `v`; the last bucket collects everything above): the
/// first bucket whose running count passes position `(95 · total − 1) / 100`,
/// the last bucket if none does, 0 for no values.
pub open spec fn histogram_percentile(hist: Seq<u32>, total: int) -> u32 {
    if total <= 0 {
        0
    } else {
        match first_bucket_over(hist, rank95(total), 0, 0) {
            Some(v) => v as u32,
            None => if hist.len() > 0 { (hist.len() - 1) as u32 } else { 0u32 },
        }
    }
}

/// Computes `histogram_percentile`.
pub fn percentile95_from_histogram(hist: &[u32], total_count: u64) -> (r: u32)
    requires
        total_count * 95 <= usize::MAX,
        hist@.len() <= u32::MAX + 1,
    ensures
        r == histogram_percentile(hist@, total_count as int),
{
    if total_count == 0 {
        return 0;
    }
    let prod = (total_count as usize) * 95;
    let rank: usize = (if prod >= 1 { prod - 1 } else { 0 }) / 100;
    let mut cumulative: u128 = 0;
    let n = hist.len();
    let mut value: usize = 0;
    while value < n
        invariant
            value <= n,
            n == hist@.len(),
            n <= u32::MAX + 1,
            total_count > 0,
            rank == rank95(total_count as int),
            cumulative <= rank,
            first_bucket_over(hist@, rank as int, 0, 0) == first_bucket_over(hist@, rank as int, value as int, cumulative as int),
        decreases n - value,
    {
        cumulative = cumulative + hist[value] as u128;
        if cumulative > rank as u128 {
            return value as u32;
        }
        value = value + 1;
    }
    if n > 0 { (n - 1) as u32 } else { 0 }
}

/// Number of the first `k` values of `s` that are below `v`.
spec fn count_below(s: Seq<u32>, v: int, k: int) -> nat
    decreases k,
{
    if k <= 0 { 0 } else { count_below(s, v, k - 1) + (if s[k - 1] < v { 1nat } else { 0nat }) }
}

proof fn lemma_count_below_step(s: Seq<u32>, w: u32, k: int)
    requires 0 <= k <= s.len(),
    ensures count_below(s, w + 1, k) == count_below(s, w as int, k) + s.take(k).to_multiset().count(w),
    decreases k,
{
    broadcast use vstd::seq_lib::group_to_multiset_ensures;
    if k == 0 {
        assert(s.take(0) =~= Seq::<u32>::empty());
    } else {
        lemma_count_below_step(s, w, k - 1);
        assert(s.take(k) =~= s.take(k - 1).push(s[k - 1]));
    }
}

proof fn lemma_count_below_zero(s: Seq<u32>, k: int)
    ensures count_below(s, 0, k) == 0,
    decreases k,
{
    if k > 0 { lemma_count_below_zero(s, k - 1); }
}

/// In ascending `s`, fewer than `r + 1` values lie below any `v <= s[r]`.
proof fn lemma_count_below_upper(s: Seq<u32>, r: int, v: int, k: int)
    requires sorted_u32(s), 0 <= r < s.len(), v <= s[r], 0 <= k <= s.len(),
    ensures count_below(s, v, k) <= r,
    decreases k,
{
    if k > 0 {
        lemma_count_below_upper(s, r, v, k - 1);
        if k - 1 < r {
            lemma_count_below_at_most(s, v, k - 1);
        }
    }
}

proof fn lemma_count_below_at_most(s: Seq<u32>, v: int, k: int)
    ensures count_below(s, v, k) <= if k < 0 { 0 } else { k },
    decreases k,
{
    if k > 0 { lemma_count_below_at_most(s, v, k - 1); }
}

/// In ascending `s`, at least `r + 1` values lie below `s[r] + 1`.
proof fn lemma_count_below_lower(s: Seq<u32>, r: int, k: int)
    requires sorted_u32(s), 0 <= r < s.len(), 0 <= k <= s.len(),
    ensures count_below(s, s[r] + 1, k) >= if k <= r + 1 { k } else { r + 1 },
    decreases k,
{
    if k > 0 { lemma_count_below_lower(s, r, k - 1); }
}

/// The histogram walk, from bucket `i` up to the percentile value.
proof fn lemma_walk_to_percentile(hist: Seq<u32>, sorted: Seq<u32>, r: int, i: int)
    requires
        sorted_u32(sorted),
        0 <= r < sorted.len(),
        0 <= i <= sorted[r] < hist.len(),
        forall|v: int| 0 <= v < hist.len() ==> #[trigger] hist[v] == sorted.to_multiset().count(v as u32),
    ensures
        first_bucket_over(hist, r, i, count_below(sorted, i, sorted.len() as int) as int) == Some(sorted[r] as int),
    decreases sorted[r] - i,
{
    let n = sorted.len() as int;
    assert(sorted.take(n) =~= sorted);
    lemma_count_below_step(sorted, i as u32, n);
    if i == sorted[r] {
        lemma_count_below_lower(sorted, r, n);
    } else {
        lemma_count_below_upper(sorted, r, i + 1, n);
        lemma_walk_to_percentile(hist, sorted, r, i + 1);
    }
}

/// The histogram walk and the sorted samples agree: when bucket `v` counts
/// the samples equal to `v` and every sample has its own bucket, the
/// histogram's 95th percentile is the value at position `(95 n − 1) / 100`
/// of the samples in ascending order, as `percentile95` returns it.
pub proof fn lemma_histogram_matches_samples(samples: Seq<u32>, hist: Seq<u32>, sorted: Seq<u32>)
    requires
        samples.len() > 0,
        sorted.to_multiset() == samples.to_multiset(),
        sorted.len() == samples.len(),
        sorted_u32(sorted),
        forall|i: int| 0 <= i < samples.len() ==> #[trigger] samples[i] < hist.len(),
        forall|v: int| 0 <= v < hist.len() ==> #[trigger] hist[v] == samples.to_multiset().count(v as u32),
    ensures
        first_bucket_over(hist, rank95(samples.len() as int), 0, 0) == Some(sorted[rank95(samples.len() as int)] as int),
{
    broadcast use vstd::seq_lib::group_to_multiset_ensures;
    let n = samples.len() as int;
    let r = rank95(n);
    assert(0 <= r < n) by (nonlinear_arith) requires r == rank95(n), n >= 1;
    assert(sorted.contains(sorted[r]));
    assert(samples.to_multiset().count(sorted[r]) > 0);
    assert(samples.contains(sorted[r]));
    let w = choose|w: int| 0 <= w < samples.len() && samples[w] == sorted[r];
    assert(samples[w] < hist.len());
    lemma_count_below_zero(sorted, n);
    lemma_walk_to_percentile(hist, sorted, r, 0);
}

/// Both ways of computing the percentile agree: on a histogram that counts
/// exactly the samples (each sample within its range), the histogram
/// percentile is the value at the 95th-percentile position of the samples
/// in ascending order, and both are 0 when there are no samples.
pub proof fn lemma_histogram_percentile_agrees(samples: Seq<u32>, hist: Seq<u32>)
    requires
        forall|i: int| 0 <= i < samples.len() ==> #[trigger] samples[i] < hist.len(),
        forall|v: int| 0 <= v < hist.len() ==> #[trigger] hist[v] == samples.to_multiset().count(v as u32),
    ensures
        samples.len() == 0 ==> histogram_percentile(hist, 0) == 0,
        forall|s: Seq<u32>| #![trigger s.to_multiset()]
            samples.len() > 0 && s.to_multiset() == samples.to_multiset() && s.len() == samples.len() && sorted_u32(s)
            ==> histogram_percentile(hist, samples.len() as int) == s[rank95(samples.len() as int)],
{
    assert forall|s: Seq<u32>| #![trigger s.to_multiset()]
        samples.len() > 0 && s.to_multiset() == samples.to_multiset() && s.len() == samples.len() && sorted_u32(s)
        implies histogram_percentile(hist, samples.len() as int) == s[rank95(samples.len() as int)] by {
        lemma_histogram_matches_samples(samples, hist, s);
        let n = samples.len() as int;
        let r = rank95(n);
        assert(0 <= r < n) by (nonlinear_arith) requires r == rank95(n), n >= 1;
        assert(s.to_multiset().count(s[r]) > 0) by {
            broadcast use vstd::seq_lib::group_to_multiset_ensures;
            assert(s.contains(s[r]));
        }
        assert(samples.contains(s[r])) by {
            broadcast use vstd::seq_lib::group_to_multiset_ensures;
        }
        let w = choose|w: int| 0 <= w < samples.len() && samples[w] == s[r];
        assert(samples[w] < hist.len());
    }
}

/// Sorting is unique: two ascending sequences holding the same values
/// are equal, so the position that `percentile95` reads names one value.
pub proof fn lemma_sorted_permutations_agree(s1: Seq<u32>, s2: Seq<u32>)
    requires
        sorted_u32(s1),
        sorted_u32(s2),
        s1.to_multiset() == s2.to_multiset(),
    ensures s1 == s2,
    decreases s1.len(),
{
    broadcast use vstd::seq_lib::group_to_multiset_ensures;
    assert(s1.to_multiset().len() == s1.len());
    assert(s2.to_multiset().len() == s2.len());
    assert(s1.len() == s2.len());
    if s1.len() > 0 {
        assert(s1.contains(s1[0]));
        assert(s2.to_multiset().count(s1[0]) > 0);
        assert(s2.contains(s1[0]));
        assert(s1.contains(s2[0])) by {
            assert(s2.contains(s2[0]));
            assert(s1.to_multiset().count(s2[0]) > 0);
        }
        let a = choose|k: int| 0 <= k < s2.len() && s2[k] == s1[0];
        let c = choose|k: int| 0 <= k < s1.len() && s1[k] == s2[0];
        assert(s2[0] <= s2[a]);
        assert(s1[0] <= s1[c]);
        assert(s1[0] == s2[0]);
        let t1 = s1.remove(0);
        let t2 = s2.remove(0);
        assert(t1.to_multiset() == s1.to_multiset().remove(s1[0]));
        assert(t2.to_multiset() == s2.to_multiset().remove(s2[0]));
        assert(sorted_u32(t1)) by {
            assert forall|i: int, j: int| 0 <= i <= j < t1.len() implies t1[i] <= t1[j] by {
                assert(t1[i] == s1[i + 1] && t1[j] == s1[j + 1]);
            }
        }
        assert(sorted_u32(t2)) by {
            assert forall|i: int, j: int| 0 <= i <= j < t2.len() implies t2[i] <= t2[j] by {
                assert(t2[i] == s2[i + 1] && t2[j] == s2[j + 1]);
            }
        }
        lemma_sorted_permutations_agree(t1, t2);
        assert(s1 =~= seq![s1[0]] + t1);
        assert(s2 =~= seq![s2[0]] + t2);
    }
}

} // verus!
