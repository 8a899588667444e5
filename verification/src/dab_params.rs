//! Transmission-mode parameters (ETSI EN 300 401 §14.2, Table 38).

use vstd::prelude::*;

verus! {

/// OFDM parameters of one DAB transmission mode.
#[derive(Clone, Debug)]
pub struct DabParams {
    pub dab_mode: i16,
    /// Number of OFDM symbols per frame (without the null symbol).
    pub l: i16,
    /// Number of active carriers.
    pub k: i16,
    /// Null-symbol length in samples.
    pub t_null: i16,
    /// Frame length in samples.
    pub t_f: i32,
    /// Symbol length (guard + useful part).
    pub t_s: i16,
    /// Useful symbol length (FFT size).
    pub t_u: i16,
    /// Guard interval.
    pub t_g: i16,
    pub carrier_diff: i32,
}

/// The mode that a requested mode number selects: 2, 3 and 4 stand for
/// themselves, every other number selects Mode I.
pub open spec fn effective_mode(mode: u8) -> i16 {
    if mode == 2 || mode == 3 || mode == 4 { mode as i16 } else { 1 }
}

/// Table 38 of ETSI EN 300 401 for a mode in 1..=4:
/// (L, K, T_null, T_F, T_s, T_u, T_g, carrier spacing in Hz).
pub open spec fn mode_table(m: i16) -> (i16, i16, i16, i32, i16, i16, i16, i32) {
    if m == 2 {
        (76, 384, 664, 49152, 638, 512, 126, 4000)
    } else if m == 3 {
        (153, 192, 345, 49152, 319, 256, 63, 2000)
    } else if m == 4 {
        (76, 768, 1328, 98304, 1276, 1024, 252, 2000)
    } else {
        (76, 1536, 2656, 196608, 2552, 2048, 504, 1000)
    }
}

impl DabParams {
    /// The parameters agree with Table 38 for their own mode.
    pub open spec fn matches_table(&self) -> bool {
        let t = mode_table(self.dab_mode);
        &&& 1 <= self.dab_mode <= 4
        &&& self.l == t.0 && self.k == t.1 && self.t_null == t.2 && self.t_f == t.3
        &&& self.t_s == t.4 && self.t_u == t.5 && self.t_g == t.6 && self.carrier_diff == t.7
    }

    /// Parameters of the requested mode; unknown modes fall back to Mode I.
    pub fn new(mode: u8) -> (p: Self)
        ensures
            p.dab_mode == effective_mode(mode),
            p.matches_table(),
    {
        match mode {
            2 => DabParams {
                dab_mode: 2, l: 76, k: 384, t_null: 664,
                t_f: 49152, t_s: 638, t_u: 512, t_g: 126, carrier_diff: 4000,
            },
            4 => DabParams {
                dab_mode: 4, l: 76, k: 768, t_null: 1328,
                t_f: 98304, t_s: 1276, t_u: 1024, t_g: 252, carrier_diff: 2000,
            },
            3 => DabParams {
                dab_mode: 3, l: 153, k: 192, t_null: 345,
                t_f: 49152, t_s: 319, t_u: 256, t_g: 63, carrier_diff: 2000,
            },
            _ => DabParams {
                dab_mode: 1, l: 76, k: 1536, t_null: 2656,
                t_f: 196608, t_s: 2552, t_u: 2048, t_g: 504, carrier_diff: 1000,
            },
        }
    }

    /// Number of active carriers K.
    pub fn get_carriers(&self) -> (n: usize)
        ensures n == self.k as usize,
    {
        self.k as usize
    }

    /// Number of OFDM symbols per frame L.
    pub fn get_l(&self) -> (n: usize)
        ensures n == self.l as usize,
    {
        self.l as usize
    }
}

/// In every mode the symbol length is the useful part plus the guard interval.
pub proof fn lemma_symbol_length_is_useful_plus_guard(mode: u8)
    ensures
        ({
            let t = mode_table(effective_mode(mode));
            t.4 == t.5 + t.6
        }),
{
}

} // verus!
