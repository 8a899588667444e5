//! Frequency interleaving (ETSI EN 300 401 §14.6): the permutation that
//! maps the position of a QPSK symbol in an OFDM symbol to its carrier.

use vstd::prelude::*;
use crate::dab_params::DabParams;
use crate::pipeline::{tdiv, trem};

verus! {

/// Element `n` of the generator sequence π(n) = (13 π(n−1) + v1) mod T_u,
/// π(0) = 0 (remainder with the sign of the dividend).
pub open spec fn lcg_value(t_u: int, v1: int, n: nat) -> int
    decreases n,
{
    if n == 0 { 0 } else { trem(13 * lcg_value(t_u, v1, (n - 1) as nat) + v1, t_u) }
}

/// The carriers (relative to the centre) of the first `n` generator values
/// that fall inside `lwb..=upb` and are not the centre carrier.
pub open spec fn mapper_prefix(t_u: int, v1: int, lwb: int, upb: int, n: nat) -> Seq<i16>
    decreases n,
{
    if n == 0 {
        Seq::empty()
    } else {
        let prev = mapper_prefix(t_u, v1, lwb, upb, (n - 1) as nat);
        let t = lcg_value(t_u, v1, (n - 1) as nat);
        if t == t_u / 2 || t < lwb || t > upb { prev } else { prev.push((t - t_u / 2) as i16) }
    }
}

/// The interleaving table for FFT size `t_u`.
pub open spec fn mapper(t_u: int, v1: int, lwb: int, upb: int) -> Seq<i16> {
    mapper_prefix(t_u, v1, lwb, upb, t_u as nat)
}

proof fn lemma_lcg_bound(t_u: int, v1: int, n: nat)
    requires 1 <= t_u <= 32767, 0 <= v1 <= 32767,
    ensures 0 <= lcg_value(t_u, v1, n) < t_u,
    decreases n,
{
    if n > 0 {
        lemma_lcg_bound(t_u, v1, (n - 1) as nat);
        let x = 13 * lcg_value(t_u, v1, (n - 1) as nat) + v1;
        assert(x >= 0);
        assert(tdiv(x, t_u) == x / t_u);
        vstd::arithmetic::div_mod::lemma_fundamental_div_mod(x, t_u);
        vstd::arithmetic::div_mod::lemma_mod_bound(x, t_u);
    }
}

/// Every carrier of the table lies in `lwb − T_u/2 ..= upb − T_u/2` and is
/// never the centre carrier.
pub proof fn lemma_mapper_range(t_u: int, v1: int, lwb: int, upb: int, n: nat)
    requires 1 <= t_u <= 32767, 0 <= v1 <= 32767, -32768 <= lwb - t_u / 2, upb - t_u / 2 <= 32767,
    ensures
        forall|i: int| 0 <= i < mapper_prefix(t_u, v1, lwb, upb, n).len() ==> {
            let v = #[trigger] mapper_prefix(t_u, v1, lwb, upb, n)[i];
            &&& lwb - t_u / 2 <= v <= upb - t_u / 2
            &&& v != 0
        },
        mapper_prefix(t_u, v1, lwb, upb, n).len() <= n,
    decreases n,
{
    if n > 0 {
        lemma_mapper_range(t_u, v1, lwb, upb, (n - 1) as nat);
        lemma_lcg_bound(t_u, v1, (n - 1) as nat);
    }
}

/// The table for FFT size `t_u`, generator increment `v1` and the carrier
/// window `lwb..=upb`.
fn create_mapper(t_u: usize, v1: i16, lwb: i16, upb: i16) -> (r: Vec<i16>)
    requires t_u <= 32767, 0 <= v1,
    ensures r@ == mapper(t_u as int, v1 as int, lwb as int, upb as int),
{
    if t_u == 0 {
        return Vec::new();
    }
    let mut tmp: Vec<i16> = vec![0i16; t_u];
    let m: i64 = t_u as i64;
    let mut i: usize = 1;
    while i < t_u
        invariant
            1 <= i <= t_u,
            t_u <= 32767,
            m == t_u,
            0 <= v1,
            tmp@.len() == t_u,
            forall|k: int| 0 <= k < i ==> #[trigger] tmp@[k] == lcg_value(t_u as int, v1 as int, k as nat),
        decreases t_u - i,
    {
        proof { lemma_lcg_bound(t_u as int, v1 as int, (i - 1) as nat); }
        let x: i64 = 13 * (tmp[i - 1] as i64) + v1 as i64;
        let q: i64 = if x >= 0 { x / m } else { -((-x) / m) };
        assert(x >= 0);
        assert(0 <= m * q <= x) by (nonlinear_arith) requires x >= 0, m >= 1, q == x / m;
        let next: i64 = x - m * q;
        proof {
            lemma_lcg_bound(t_u as int, v1 as int, i as nat);
            assert(next == lcg_value(t_u as int, v1 as int, i as nat));
        }
        tmp.set(i, next as i16);
        i = i + 1;
    }
    let half: i16 = (t_u / 2) as i16;
    let mut result: Vec<i16> = Vec::new();
    let mut j: usize = 0;
    while j < t_u
        invariant
            j <= t_u,
            t_u <= 32767,
            half == t_u / 2,
            tmp@.len() == t_u,
            0 <= v1,
            forall|k: int| 0 <= k < t_u ==> #[trigger] tmp@[k] == lcg_value(t_u as int, v1 as int, k as nat),
            result@ == mapper_prefix(t_u as int, v1 as int, lwb as int, upb as int, j as nat),
        decreases t_u - j,
    {
        let t = tmp[j];
        proof { lemma_lcg_bound(t_u as int, v1 as int, j as nat); }
        if t == half || t < lwb || t > upb {
        } else {
            result.push(t - half);
        }
        j = j + 1;
    }
    result
}

/// Useful symbol length (FFT size) of Mode I.
pub const TU: usize = 2048;
/// Active carriers of Mode I.
pub const K: usize = 1536;

/// FFT bin of each active Mode I carrier, lowest carrier first: carriers
/// −768..=−1 sit in the upper half of the FFT (bins 1280..2048), carriers
/// 1..=768 in bins 1..=768; the centre carrier is not used.
pub fn carrier_map() -> (m: Vec<usize>)
    ensures
        m@.len() == K,
        forall|i: int| 0 <= i < 768 ==> #[trigger] m@[i] == TU - 768 + i,
        forall|i: int| 768 <= i < K ==> #[trigger] m@[i] == i - 767,
{
    let mut map: Vec<usize> = Vec::new();
    let mut rel: i32 = -768;
    while rel <= 768
        invariant
            -768 <= rel <= 769,
            map@.len() == (if rel <= 0 { rel + 768 } else { rel + 767 }),
            forall|i: int| 0 <= i < map@.len() && i < 768 ==> #[trigger] map@[i] == TU - 768 + i,
            forall|i: int| 768 <= i < map@.len() ==> #[trigger] map@[i] == i - 767,
        decreases 769 - rel,
    {
        if rel != 0 {
            let idx: usize = if rel < 0 { (TU as i32 + rel) as usize } else { rel as usize };
            map.push(idx);
        }
        rel = rel + 1;
    }
    map
}

/// Generator increment and carrier window of a mode (unknown modes as Mode I).
pub open spec fn mode_mapper_params(mode: i16) -> (int, int) {
    if mode == 2 { (127, 64) } else if mode == 3 { (63, 32) } else if mode == 4 { (255, 128) } else { (511, 256) }
}

/// The frequency interleaver of one transmission mode.
pub struct FreqInterleaver {
    perm_table: Vec<i16>,
}

impl FreqInterleaver {
    /// The interleaving table.
    pub closed spec fn table(&self) -> Seq<i16> {
        self.perm_table@
    }

    /// Interleaver for the mode of `params`: T_u-point generator, carrier
    /// window starting at the mode's lower bound and K carriers wide.
    pub fn new(params: &DabParams) -> (f: Self)
        requires 0 <= params.t_u, mode_mapper_params(params.dab_mode).1 + params.k <= i16::MAX,
        ensures
            f.table() == mapper(params.t_u as int, mode_mapper_params(params.dab_mode).0,
                mode_mapper_params(params.dab_mode).1, mode_mapper_params(params.dab_mode).1 + params.k),
    {
        let t_u = params.t_u as usize;
        let carriers = params.k;
        let perm_table = match params.dab_mode {
            2 => create_mapper(t_u, 127, 64, 64 + carriers),
            3 => create_mapper(t_u, 63, 32, 32 + carriers),
            4 => create_mapper(t_u, 255, 128, 128 + carriers),
            _ => create_mapper(t_u, 511, 256, 256 + carriers),
        };
        FreqInterleaver { perm_table }
    }

    /// Carrier (relative to the centre) of interleaved position `n`.
    pub fn map_in(&self, n: usize) -> (c: i16)
        requires n < self.table().len(),
        ensures c == self.table()[n as int],
    {
        self.perm_table[n]
    }

    /// Number of table entries.
    pub fn len(&self) -> (n: usize)
        ensures n == self.table().len(),
    {
        self.perm_table.len()
    }
}

// ── Why the table is a permutation ─────────────────────────────────────────
//
// For T_u = 2^k and an odd increment, π(n) = v1·(1 + 13 + … + 13^(n−1)) mod T_u.
// Two indices i < j < T_u with π(i) = π(j) would make 2^k divide
// v1·13^i·(1 + … + 13^(j−i−1)), hence (the first two factors being odd)
// divide 1 + … + 13^(d−1) with d = j − i; but that sum holds exactly as
// many factors 2 as d does, and 0 < d < 2^k.

spec fn pow13(n: nat) -> int
    decreases n,
{
    if n == 0 { 1 } else { 13 * pow13((n - 1) as nat) }
}

/// 1 + 13 + … + 13^(n−1).
spec fn geo13(n: nat) -> int
    decreases n,
{
    if n == 0 { 0 } else { 13 * geo13((n - 1) as nat) + 1 }
}

spec fn two_pow(j: nat) -> int
    decreases j,
{
    if j == 0 { 1 } else { 2 * two_pow((j - 1) as nat) }
}

/// `x` is a multiple of 2^j.
spec fn even_times(x: int, j: nat) -> bool
    decreases j,
{
    if j == 0 { true } else { x % 2 == 0 && even_times(x / 2, (j - 1) as nat) }
}

proof fn lemma_pow13(n: nat)
    ensures pow13(n) > 0, pow13(n) % 4 == 1,
    decreases n,
{
    if n > 0 {
        lemma_pow13((n - 1) as nat);
        let p = pow13((n - 1) as nat);
        assert((13 * p) % 4 == 1) by (nonlinear_arith) requires p % 4 == 1;
    }
}

proof fn lemma_geo_parity(n: nat)
    ensures geo13(n) % 2 == n % 2,
    decreases n,
{
    if n > 0 {
        lemma_geo_parity((n - 1) as nat);
    }
}

proof fn lemma_geo_split(a: nat, b: nat)
    ensures geo13(a + b) == pow13(b) * geo13(a) + geo13(b),
    decreases b,
{
    if b > 0 {
        lemma_geo_split(a, (b - 1) as nat);
        let p = pow13((b - 1) as nat);
        let g = geo13(a);
        assert(13 * (p * g) == (13 * p) * g) by (nonlinear_arith);
        assert(geo13((a + b) as nat) == 13 * geo13((a + (b - 1)) as nat) + 1);
    }
}

proof fn lemma_even_times_odd_factor(x: int, u: int, j: nat)
    requires even_times(x * u, j), u % 2 == 1,
    ensures even_times(x, j),
    decreases j,
{
    if j > 0 {
        vstd::arithmetic::div_mod::lemma_mul_mod_noop(x, u, 2);
        assert((x % 2) * (u % 2) == x % 2);
        let y = x / 2;
        assert(x == 2 * y);
        assert(x * u == 2 * (y * u)) by (nonlinear_arith) requires x == 2 * y;
        assert((x * u) / 2 == y * u);
        lemma_even_times_odd_factor(y, u, (j - 1) as nat);
    }
}

#[verifier::spinoff_prover]
proof fn lemma_even_times_multiple(q: int, j: nat)
    ensures even_times(two_pow(j) * q, j),
    decreases j,
{
    if j > 0 {
        let t = two_pow((j - 1) as nat);
        let tq = t * q;
        assert(two_pow(j) * q == 2 * tq) by (nonlinear_arith) requires two_pow(j) == 2 * t, tq == t * q;
        assert((2 * tq) % 2 == 0);
        assert((2 * tq) / 2 == tq);
        lemma_even_times_multiple(q, (j - 1) as nat);
    }
}

proof fn lemma_even_times_bound(x: int, j: nat)
    requires x > 0, even_times(x, j),
    ensures x >= two_pow(j),
    decreases j,
{
    if j > 0 {
        lemma_even_times_bound(x / 2, (j - 1) as nat);
    }
}

/// The sum 1 + … + 13^(d−1) is a multiple of 2^j only when d is.
#[verifier::spinoff_prover]
proof fn lemma_geo_even_times(d: nat, j: nat)
    requires d > 0, even_times(geo13(d), j),
    ensures even_times(d as int, j),
    decreases j,
{
    if j > 0 {
        lemma_geo_parity(d);
        let e: nat = d / 2;
        assert(d == e + e);
        lemma_geo_split(e, e);
        lemma_pow13(e);
        let p = pow13(e);
        let g = geo13(e);
        let u = (p + 1) / 2;
        assert(p + 1 == 2 * u);
        assert(u % 2 == 1);
        assert(geo13(d) == p * g + g);
        assert(p * g + g == 2 * (g * u)) by (nonlinear_arith) requires p + 1 == 2 * u;
        assert(geo13(d) / 2 == g * u);
        lemma_even_times_odd_factor(g, u, (j - 1) as nat);
        lemma_geo_even_times(e, (j - 1) as nat);
    }
}

/// Closed form of the generator: π(n) = v1·(1 + … + 13^(n−1)) mod T_u.
proof fn lemma_lcg_closed(t_u: int, v1: int, n: nat)
    requires 1 <= t_u <= 32767, 0 <= v1 <= 32767,
    ensures lcg_value(t_u, v1, n) == (v1 * geo13(n)) % t_u,
    decreases n,
{
    if n > 0 {
        lemma_lcg_closed(t_u, v1, (n - 1) as nat);
        lemma_lcg_bound(t_u, v1, (n - 1) as nat);
        let g = geo13((n - 1) as nat);
        let l = lcg_value(t_u, v1, (n - 1) as nat);
        let x = 13 * l + v1;
        assert(x >= 0);
        vstd::arithmetic::div_mod::lemma_fundamental_div_mod(x, t_u);
        assert(trem(x, t_u) == x % t_u);
        vstd::arithmetic::div_mod::lemma_mul_mod_noop_right(13, v1 * g, t_u);
        vstd::arithmetic::div_mod::lemma_add_mod_noop(13 * l, v1, t_u);
        vstd::arithmetic::div_mod::lemma_add_mod_noop(13 * (v1 * g), v1, t_u);
        assert(lcg_value(t_u, v1, n) == x % t_u);
        assert(l == (v1 * g) % t_u);
        assert((13 * l) % t_u == (13 * (v1 * g)) % t_u);
        assert(x % t_u == (13 * (v1 * g) + v1) % t_u);
        assert(13 * (v1 * g) + v1 == v1 * (13 * g + 1)) by (nonlinear_arith);
        assert(geo13(n) == 13 * g + 1);
        assert(v1 * geo13(n) == v1 * (13 * g + 1)) by (nonlinear_arith) requires geo13(n) == 13 * g + 1;
    } else {
        assert(v1 * geo13(n) == 0) by (nonlinear_arith) requires geo13(n) == 0;
    }
}

/// The first 2^k generator values are pairwise different when the
/// increment is odd.
proof fn lemma_lcg_distinct(k: nat, v1: int, i: nat, j: nat)
    requires
        two_pow(k) <= 32767,
        0 <= v1 <= 32767,
        v1 % 2 == 1,
        i < j < two_pow(k),
    ensures
        lcg_value(two_pow(k), v1, i) != lcg_value(two_pow(k), v1, j),
{
    let m = two_pow(k);
    lemma_even_times_bound(m, 0);
    if lcg_value(m, v1, i) == lcg_value(m, v1, j) {
        lemma_lcg_closed(m, v1, i);
        lemma_lcg_closed(m, v1, j);
        let d: nat = (j - i) as nat;
        lemma_geo_split(d, i);
        assert(j == d + i);
        let gi = geo13(i);
        let gd = geo13(d);
        lemma_pow13(i);
        let p = pow13(i);
        vstd::arithmetic::div_mod::lemma_fundamental_div_mod(v1 * geo13(j), m);
        vstd::arithmetic::div_mod::lemma_fundamental_div_mod(v1 * gi, m);
        let q = (v1 * geo13(j)) / m - (v1 * gi) / m;
        assert(v1 * geo13(j) - v1 * gi == m * q) by (nonlinear_arith)
            requires
                v1 * geo13(j) == m * ((v1 * geo13(j)) / m) + (v1 * geo13(j)) % m,
                v1 * gi == m * ((v1 * gi) / m) + (v1 * gi) % m,
                (v1 * geo13(j)) % m == (v1 * gi) % m,
                q == (v1 * geo13(j)) / m - (v1 * gi) / m;
        let u = v1 * p;
        assert(v1 * geo13(j) - v1 * gi == gd * u) by (nonlinear_arith)
            requires geo13(j) == p * gd + gi, u == v1 * p;
        vstd::arithmetic::div_mod::lemma_mul_mod_noop(v1, p, 2);
        assert(p % 2 == 1);
        assert((v1 % 2) * (p % 2) == 1);
        assert(u % 2 == 1);
        lemma_even_times_multiple(q, k);
        assert(even_times(gd * u, k));
        lemma_even_times_odd_factor(gd, u, k);
        lemma_geo_even_times(d, k);
        lemma_even_times_bound(d as int, k);
    }
}

/// Generator value `t` is kept in the table: inside the window and not
/// the centre carrier.
spec fn kept(t_u: int, lwb: int, upb: int, t: int) -> bool {
    !(t == t_u / 2 || t < lwb || t > upb)
}

/// The generator indices behind the first `n` table entries.
spec fn mapper_sources(t_u: int, v1: int, lwb: int, upb: int, n: nat) -> Seq<int>
    decreases n,
{
    if n == 0 {
        Seq::empty()
    } else {
        let prev = mapper_sources(t_u, v1, lwb, upb, (n - 1) as nat);
        if kept(t_u, lwb, upb, lcg_value(t_u, v1, (n - 1) as nat)) { prev.push(n - 1) } else { prev }
    }
}

proof fn lemma_mapper_sources(t_u: int, v1: int, lwb: int, upb: int, n: nat)
    requires 1 <= t_u <= 32767, 0 <= v1 <= 32767, -32768 <= lwb - t_u / 2, upb - t_u / 2 <= 32767,
    ensures
        mapper_sources(t_u, v1, lwb, upb, n).len() == mapper_prefix(t_u, v1, lwb, upb, n).len(),
        forall|i: int| 0 <= i < mapper_sources(t_u, v1, lwb, upb, n).len() ==> {
            let j = #[trigger] mapper_sources(t_u, v1, lwb, upb, n)[i];
            &&& 0 <= j < n
            &&& kept(t_u, lwb, upb, lcg_value(t_u, v1, j as nat))
            &&& mapper_prefix(t_u, v1, lwb, upb, n)[i] as int == lcg_value(t_u, v1, j as nat) - t_u / 2
        },
        forall|i: int, i2: int| 0 <= i < i2 < mapper_sources(t_u, v1, lwb, upb, n).len() ==>
            #[trigger] mapper_sources(t_u, v1, lwb, upb, n)[i] < #[trigger] mapper_sources(t_u, v1, lwb, upb, n)[i2],
        forall|j: nat| j < n && kept(t_u, lwb, upb, #[trigger] lcg_value(t_u, v1, j)) ==>
            mapper_prefix(t_u, v1, lwb, upb, n).contains((lcg_value(t_u, v1, j) - t_u / 2) as i16),
    decreases n,
{
    if n > 0 {
        let n1 = (n - 1) as nat;
        lemma_mapper_sources(t_u, v1, lwb, upb, n1);
        lemma_lcg_bound(t_u, v1, n1);
        let prev = mapper_prefix(t_u, v1, lwb, upb, n1);
        let t = lcg_value(t_u, v1, n1);
        assert forall|j: nat| j < n && kept(t_u, lwb, upb, #[trigger] lcg_value(t_u, v1, j)) implies
            mapper_prefix(t_u, v1, lwb, upb, n).contains((lcg_value(t_u, v1, j) - t_u / 2) as i16) by {
            let cur = mapper_prefix(t_u, v1, lwb, upb, n);
            let v = (lcg_value(t_u, v1, j) - t_u / 2) as i16;
            if j < n1 {
                assert(prev.contains(v));
                let w = choose|w: int| 0 <= w < prev.len() && prev[w] == v;
                assert(cur[w] == v);
            } else {
                assert(cur[cur.len() - 1] == v);
            }
        }
    }
}

/// Table entries and their generator indices, for the whole table.
proof fn lemma_mapper_window_permutation(k: nat, v1: int, lwb: int, upb: int)
    requires
        two_pow(k) <= 32767,
        0 <= v1 <= 32767,
        v1 % 2 == 1,
        0 <= lwb <= two_pow(k) / 2 <= upb < two_pow(k),
    ensures
        mapper(two_pow(k), v1, lwb, upb).no_duplicates(),
        mapper(two_pow(k), v1, lwb, upb).len() == upb - lwb,
{
    let m = two_pow(k);
    lemma_even_times_bound(m, 0);
    let mn = m as nat;
    lemma_mapper_sources(m, v1, lwb, upb, mn);
    let e = mapper(m, v1, lwb, upb);
    let src = mapper_sources(m, v1, lwb, upb, mn);
    // Different entries come from different generator indices.
    assert forall|i: int, i2: int| 0 <= i < e.len() && 0 <= i2 < e.len() && i != i2 implies e[i] != e[i2] by {
        let (a, b) = if i < i2 { (i, i2) } else { (i2, i) };
        assert(src[a] < src[b]);
        lemma_lcg_distinct(k, v1, src[a] as nat, src[b] as nat);
    }
    // Every value 0..T_u is a generator value.
    let gen = Seq::new(mn, |j: int| lcg_value(m, v1, j as nat));
    assert forall|a: int, b: int| 0 <= a < gen.len() && 0 <= b < gen.len() && a != b implies gen[a] != gen[b] by {
        if a < b { lemma_lcg_distinct(k, v1, a as nat, b as nat); } else { lemma_lcg_distinct(k, v1, b as nat, a as nat); }
    }
    gen.unique_seq_to_set();
    vstd::set_lib::lemma_int_range(0, m);
    assert forall|x: int| gen.to_set().contains(x) implies vstd::set_lib::set_int_range(0, m).contains(x) by {
        let j = choose|j: int| 0 <= j < gen.len() && gen[j] == x;
        lemma_lcg_bound(m, v1, j as nat);
    }
    vstd::set_lib::lemma_subset_equality(gen.to_set(), vstd::set_lib::set_int_range(0, m));
    // The entries, as integers, are exactly the window minus the centre.
    let ei = Seq::new(e.len(), |i: int| e[i] as int);
    let win = vstd::set_lib::set_int_range(lwb - m / 2, upb - m / 2 + 1).remove(0);
    assert forall|x: int| ei.to_set().contains(x) implies win.contains(x) by {
        let i = choose|i: int| 0 <= i < ei.len() && ei[i] == x;
        let j = src[i];
        assert(kept(m, lwb, upb, lcg_value(m, v1, j as nat)));
        assert(x == lcg_value(m, v1, j as nat) - m / 2);
        assert(vstd::set_lib::set_int_range(lwb - m / 2, upb - m / 2 + 1).contains(x));
    }
    assert forall|x: int| win.contains(x) implies ei.to_set().contains(x) by {
        let v = x + m / 2;
        assert(vstd::set_lib::set_int_range(0, m).contains(v));
        assert(gen.to_set().contains(v));
        let j = choose|j: int| 0 <= j < gen.len() && gen[j] == v;
        assert(kept(m, lwb, upb, lcg_value(m, v1, j as nat)));
        assert(e.contains((lcg_value(m, v1, j as nat) - m / 2) as i16));
        let i = choose|i: int| 0 <= i < e.len() && e[i] == (lcg_value(m, v1, j as nat) - m / 2) as i16;
        assert(ei[i] == x);
    }
    assert(ei.to_set() =~= win);
    assert forall|a: int, b: int| 0 <= a < ei.len() && 0 <= b < ei.len() && a != b implies ei[a] != ei[b] by {
        assert(e[a] != e[b]);
    }
    ei.unique_seq_to_set();
    vstd::set_lib::lemma_int_range(lwb - m / 2, upb - m / 2 + 1);
}

/// For every transmission mode, the table that `FreqInterleaver::new`
/// builds holds K carriers, no two alike, all within −K/2..=K/2 and none
/// the centre carrier.
pub proof fn lemma_table_is_carrier_permutation(params: DabParams)
    requires params.matches_table(),
    ensures ({
        let (v1, lwb) = mode_mapper_params(params.dab_mode);
        let t = mapper(params.t_u as int, v1, lwb, lwb + params.k);
        &&& t.len() == params.k
        &&& t.no_duplicates()
        &&& forall|i: int| 0 <= i < t.len() ==>
            -(params.k / 2) <= #[trigger] t[i] <= params.k / 2 && t[i] != 0
    }),
{
    let (v1, lwb) = mode_mapper_params(params.dab_mode);
    let k: nat = if params.dab_mode == 2 { 9 } else if params.dab_mode == 3 { 8 } else if params.dab_mode == 4 { 10 } else { 11 };
    assert(two_pow(k) == params.t_u) by { reveal_with_fuel(two_pow, 12); }
    lemma_mapper_window_permutation(k, v1, lwb, lwb + params.k);
    lemma_mapper_range(params.t_u as int, v1, lwb, lwb + params.k, params.t_u as nat);
}

} // verus!
