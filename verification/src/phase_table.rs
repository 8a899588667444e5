//! Phase reference symbol table (ETSI EN 300 401 §14.3.2, Table 39 and
//! Table 40): the phase of carrier `k` of the phase reference symbol, in
//! quarter turns (the angle is `π/2` times this number).

use vstd::prelude::*;

verus! {

/// Entry `e` of the Mode I table: (k_min, k_max, i, n).
pub open spec fn mode1_entry(e: int) -> (int, int, int, int) {
    if e == 0 { (-768, -737, 0, 1)
    } else if e == 1 { (-736, -705, 1, 2)
    } else if e == 2 { (-704, -673, 2, 0)
    } else if e == 3 { (-672, -641, 3, 1)
    } else if e == 4 { (-640, -609, 0, 3)
    } else if e == 5 { (-608, -577, 1, 2)
    } else if e == 6 { (-576, -545, 2, 2)
    } else if e == 7 { (-544, -513, 3, 3)
    } else if e == 8 { (-512, -481, 0, 2)
    } else if e == 9 { (-480, -449, 1, 1)
    } else if e == 10 { (-448, -417, 2, 2)
    } else if e == 11 { (-416, -385, 3, 3)
    } else if e == 12 { (-384, -353, 0, 1)
    } else if e == 13 { (-352, -321, 1, 2)
    } else if e == 14 { (-320, -289, 2, 3)
    } else if e == 15 { (-288, -257, 3, 3)
    } else if e == 16 { (-256, -225, 0, 2)
    } else if e == 17 { (-224, -193, 1, 2)
    } else if e == 18 { (-192, -161, 2, 2)
    } else if e == 19 { (-160, -129, 3, 1)
    } else if e == 20 { (-128, -97, 0, 1)
    } else if e == 21 { (-96, -65, 1, 3)
    } else if e == 22 { (-64, -33, 2, 1)
    } else if e == 23 { (-32, -1, 3, 2)
    } else if e == 24 { (1, 32, 0, 3)
    } else if e == 25 { (33, 64, 3, 1)
    } else if e == 26 { (65, 96, 2, 1)
    } else if e == 27 { (97, 128, 1, 1)
    } else if e == 28 { (129, 160, 0, 2)
    } else if e == 29 { (161, 192, 3, 2)
    } else if e == 30 { (193, 224, 2, 1)
    } else if e == 31 { (225, 256, 1, 0)
    } else if e == 32 { (257, 288, 0, 2)
    } else if e == 33 { (289, 320, 3, 2)
    } else if e == 34 { (321, 352, 2, 3)
    } else if e == 35 { (353, 384, 1, 3)
    } else if e == 36 { (385, 416, 0, 0)
    } else if e == 37 { (417, 448, 3, 2)
    } else if e == 38 { (449, 480, 2, 1)
    } else if e == 39 { (481, 512, 1, 3)
    } else if e == 40 { (513, 544, 0, 3)
    } else if e == 41 { (545, 576, 3, 3)
    } else if e == 42 { (577, 608, 2, 3)
    } else if e == 43 { (609, 640, 1, 0)
    } else if e == 44 { (641, 672, 0, 3)
    } else if e == 45 { (673, 704, 3, 0)
    } else if e == 46 { (705, 736, 2, 1)
    } else { (737, 768, 1, 1) }
}

/// h_{i,j} of Table 40.
pub open spec fn h_value(i: int, j: int) -> int {
    if i == 0 {
        if j == 0 { 0 } else if j == 1 { 2 } else if j == 2 { 0 } else if j == 3 { 0 } else if j == 4 { 0 } else if j == 5 { 0 } else if j == 6 { 1 } else if j == 7 { 1 } else if j == 8 { 2 } else if j == 9 { 0 } else if j == 10 { 0 } else if j == 11 { 0 } else if j == 12 { 2 } else if j == 13 { 2 } else if j == 14 { 1 } else if j == 15 { 1 } else if j == 16 { 0 } else if j == 17 { 2 } else if j == 18 { 0 } else if j == 19 { 0 } else if j == 20 { 0 } else if j == 21 { 0 } else if j == 22 { 1 } else if j == 23 { 1 } else if j == 24 { 2 } else if j == 25 { 0 } else if j == 26 { 0 } else if j == 27 { 0 } else if j == 28 { 2 } else if j == 29 { 2 } else if j == 30 { 1 } else { 1 }
    } else if i == 1 {
        if j == 0 { 0 } else if j == 1 { 3 } else if j == 2 { 2 } else if j == 3 { 3 } else if j == 4 { 0 } else if j == 5 { 1 } else if j == 6 { 3 } else if j == 7 { 0 } else if j == 8 { 2 } else if j == 9 { 1 } else if j == 10 { 2 } else if j == 11 { 3 } else if j == 12 { 2 } else if j == 13 { 3 } else if j == 14 { 3 } else if j == 15 { 0 } else if j == 16 { 0 } else if j == 17 { 3 } else if j == 18 { 2 } else if j == 19 { 3 } else if j == 20 { 0 } else if j == 21 { 1 } else if j == 22 { 3 } else if j == 23 { 0 } else if j == 24 { 2 } else if j == 25 { 1 } else if j == 26 { 2 } else if j == 27 { 3 } else if j == 28 { 2 } else if j == 29 { 3 } else if j == 30 { 3 } else { 0 }
    } else if i == 2 {
        if j == 0 { 0 } else if j == 1 { 0 } else if j == 2 { 0 } else if j == 3 { 2 } else if j == 4 { 0 } else if j == 5 { 2 } else if j == 6 { 1 } else if j == 7 { 3 } else if j == 8 { 2 } else if j == 9 { 2 } else if j == 10 { 0 } else if j == 11 { 2 } else if j == 12 { 2 } else if j == 13 { 0 } else if j == 14 { 1 } else if j == 15 { 3 } else if j == 16 { 0 } else if j == 17 { 0 } else if j == 18 { 0 } else if j == 19 { 2 } else if j == 20 { 0 } else if j == 21 { 2 } else if j == 22 { 1 } else if j == 23 { 3 } else if j == 24 { 2 } else if j == 25 { 2 } else if j == 26 { 0 } else if j == 27 { 2 } else if j == 28 { 2 } else if j == 29 { 0 } else if j == 30 { 1 } else { 3 }
    } else {
        if j == 0 { 0 } else if j == 1 { 1 } else if j == 2 { 2 } else if j == 3 { 1 } else if j == 4 { 0 } else if j == 5 { 3 } else if j == 6 { 3 } else if j == 7 { 2 } else if j == 8 { 2 } else if j == 9 { 3 } else if j == 10 { 2 } else if j == 11 { 1 } else if j == 12 { 2 } else if j == 13 { 1 } else if j == 14 { 3 } else if j == 15 { 2 } else if j == 16 { 0 } else if j == 17 { 1 } else if j == 18 { 2 } else if j == 19 { 1 } else if j == 20 { 0 } else if j == 21 { 3 } else if j == 22 { 3 } else if j == 23 { 2 } else if j == 24 { 2 } else if j == 25 { 3 } else if j == 26 { 2 } else if j == 27 { 1 } else if j == 28 { 2 } else if j == 29 { 1 } else if j == 30 { 3 } else { 2 }
    }
}

fn mode1_entry_of(e: usize) -> (r: (i32, i32, i32, i32))
    requires e < 48,
    ensures (r.0 as int, r.1 as int, r.2 as int, r.3 as int) == mode1_entry(e as int),
{
    match e {
        0 => (-768, -737, 0, 1),
        1 => (-736, -705, 1, 2),
        2 => (-704, -673, 2, 0),
        3 => (-672, -641, 3, 1),
        4 => (-640, -609, 0, 3),
        5 => (-608, -577, 1, 2),
        6 => (-576, -545, 2, 2),
        7 => (-544, -513, 3, 3),
        8 => (-512, -481, 0, 2),
        9 => (-480, -449, 1, 1),
        10 => (-448, -417, 2, 2),
        11 => (-416, -385, 3, 3),
        12 => (-384, -353, 0, 1),
        13 => (-352, -321, 1, 2),
        14 => (-320, -289, 2, 3),
        15 => (-288, -257, 3, 3),
        16 => (-256, -225, 0, 2),
        17 => (-224, -193, 1, 2),
        18 => (-192, -161, 2, 2),
        19 => (-160, -129, 3, 1),
        20 => (-128, -97, 0, 1),
        21 => (-96, -65, 1, 3),
        22 => (-64, -33, 2, 1),
        23 => (-32, -1, 3, 2),
        24 => (1, 32, 0, 3),
        25 => (33, 64, 3, 1),
        26 => (65, 96, 2, 1),
        27 => (97, 128, 1, 1),
        28 => (129, 160, 0, 2),
        29 => (161, 192, 3, 2),
        30 => (193, 224, 2, 1),
        31 => (225, 256, 1, 0),
        32 => (257, 288, 0, 2),
        33 => (289, 320, 3, 2),
        34 => (321, 352, 2, 3),
        35 => (353, 384, 1, 3),
        36 => (385, 416, 0, 0),
        37 => (417, 448, 3, 2),
        38 => (449, 480, 2, 1),
        39 => (481, 512, 1, 3),
        40 => (513, 544, 0, 3),
        41 => (545, 576, 3, 3),
        42 => (577, 608, 2, 3),
        43 => (609, 640, 1, 0),
        44 => (641, 672, 0, 3),
        45 => (673, 704, 3, 0),
        46 => (705, 736, 2, 1),
        _ => (737, 768, 1, 1),
    }
}

fn h_table(i: i32, j: i32) -> (r: i32)
    requires 0 <= j < 32,
    ensures r == h_value(i as int, j as int),
{
    if i == 0 {
        if j == 0 { 0 } else if j == 1 { 2 } else if j == 2 { 0 } else if j == 3 { 0 } else if j == 4 { 0 } else if j == 5 { 0 } else if j == 6 { 1 } else if j == 7 { 1 } else if j == 8 { 2 } else if j == 9 { 0 } else if j == 10 { 0 } else if j == 11 { 0 } else if j == 12 { 2 } else if j == 13 { 2 } else if j == 14 { 1 } else if j == 15 { 1 } else if j == 16 { 0 } else if j == 17 { 2 } else if j == 18 { 0 } else if j == 19 { 0 } else if j == 20 { 0 } else if j == 21 { 0 } else if j == 22 { 1 } else if j == 23 { 1 } else if j == 24 { 2 } else if j == 25 { 0 } else if j == 26 { 0 } else if j == 27 { 0 } else if j == 28 { 2 } else if j == 29 { 2 } else if j == 30 { 1 } else { 1 }
    } else if i == 1 {
        if j == 0 { 0 } else if j == 1 { 3 } else if j == 2 { 2 } else if j == 3 { 3 } else if j == 4 { 0 } else if j == 5 { 1 } else if j == 6 { 3 } else if j == 7 { 0 } else if j == 8 { 2 } else if j == 9 { 1 } else if j == 10 { 2 } else if j == 11 { 3 } else if j == 12 { 2 } else if j == 13 { 3 } else if j == 14 { 3 } else if j == 15 { 0 } else if j == 16 { 0 } else if j == 17 { 3 } else if j == 18 { 2 } else if j == 19 { 3 } else if j == 20 { 0 } else if j == 21 { 1 } else if j == 22 { 3 } else if j == 23 { 0 } else if j == 24 { 2 } else if j == 25 { 1 } else if j == 26 { 2 } else if j == 27 { 3 } else if j == 28 { 2 } else if j == 29 { 3 } else if j == 30 { 3 } else { 0 }
    } else if i == 2 {
        if j == 0 { 0 } else if j == 1 { 0 } else if j == 2 { 0 } else if j == 3 { 2 } else if j == 4 { 0 } else if j == 5 { 2 } else if j == 6 { 1 } else if j == 7 { 3 } else if j == 8 { 2 } else if j == 9 { 2 } else if j == 10 { 0 } else if j == 11 { 2 } else if j == 12 { 2 } else if j == 13 { 0 } else if j == 14 { 1 } else if j == 15 { 3 } else if j == 16 { 0 } else if j == 17 { 0 } else if j == 18 { 0 } else if j == 19 { 2 } else if j == 20 { 0 } else if j == 21 { 2 } else if j == 22 { 1 } else if j == 23 { 3 } else if j == 24 { 2 } else if j == 25 { 2 } else if j == 26 { 0 } else if j == 27 { 2 } else if j == 28 { 2 } else if j == 29 { 0 } else if j == 30 { 1 } else { 3 }
    } else {
        if j == 0 { 0 } else if j == 1 { 1 } else if j == 2 { 2 } else if j == 3 { 1 } else if j == 4 { 0 } else if j == 5 { 3 } else if j == 6 { 3 } else if j == 7 { 2 } else if j == 8 { 2 } else if j == 9 { 3 } else if j == 10 { 2 } else if j == 11 { 1 } else if j == 12 { 2 } else if j == 13 { 1 } else if j == 14 { 3 } else if j == 15 { 2 } else if j == 16 { 0 } else if j == 17 { 1 } else if j == 18 { 2 } else if j == 19 { 1 } else if j == 20 { 0 } else if j == 21 { 3 } else if j == 22 { 3 } else if j == 23 { 2 } else if j == 24 { 2 } else if j == 25 { 3 } else if j == 26 { 2 } else if j == 27 { 1 } else if j == 28 { 2 } else if j == 29 { 1 } else if j == 30 { 3 } else { 2 }
    }
}

/// Index of the first table entry from `e` on whose range holds `k`, −1 if none.
pub open spec fn entry_for(k: int, e: int) -> int
    decreases 48 - e,
{
    if e < 0 || e >= 48 {
        -1
    } else if mode1_entry(e).0 <= k <= mode1_entry(e).1 {
        e
    } else {
        entry_for(k, e + 1)
    }
}

/// Phase of carrier `k` in quarter turns: h_{i, k − k'} + n of the entry
/// covering `k`; `None` for carriers outside the table (the centre carrier
/// and those beyond ±768).
pub open spec fn quarter_turns(k: int) -> Option<int> {
    let e = entry_for(k, 0);
    if e < 0 { None } else { Some(h_value(mode1_entry(e).2, k - mode1_entry(e).0) + mode1_entry(e).3) }
}

/// The phase table of the phase reference symbol. Only the Mode I table
/// exists, so a table carries no data of its own.
pub struct PhaseTable {}

impl PhaseTable {
    /// The table for `mode`: every mode gets the Mode I table, whose phases
    /// `quarter_turns` gives.
    pub fn new(mode: i16) -> (t: Self)
    {
        let _ = mode;
        PhaseTable {}
    }

    /// Phase of carrier `k` in quarter turns (`None` outside the table).
    pub fn quarter_turns(&self, k: i32) -> (r: Option<i32>)
        ensures
            match r {
                Some(q) => quarter_turns(k as int) == Some(q as int),
                None => quarter_turns(k as int) is None,
            },
    {
        let mut e: usize = 0;
        while e < 48
            invariant
                e <= 48,
                entry_for(k as int, 0) == entry_for(k as int, e as int),
            decreases 48 - e,
        {
            let (kmin, kmax, i, n) = mode1_entry_of(e);
            if kmin <= k && k <= kmax {
                assert(k - kmin < 32);
                let h = h_table(i, k - kmin);
                return Some(h + n);
            }
            e = e + 1;
        }
        None
    }
}

} // verus!
