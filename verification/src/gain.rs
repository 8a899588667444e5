//! Tuner gain selection: a percentage picks one
//! entry of the tuner's gain table, with two slightly different index
//! formulas for the gain that is set and the gain that is reported.

use vstd::prelude::*;

verus! {

/// The chosen table entries (indices and gains in tenths of a dB).
#[derive(Debug, Clone, Copy, PartialEq, Eq, Structural)]
pub struct GainSelection {
    pub set_index: usize,
    pub effective_index: usize,
    pub set_gain_tenth_db: i32,
    pub effective_gain_tenth_db: i32,
}

/// Index of the gain that is set: `p · count / 100`, at most `count − 1`.
pub open spec fn set_index_spec(p: int, count: int) -> int {
    if p * count / 100 >= count { count - 1 } else { p * count / 100 }
}

/// Index of the gain that is reported: `p · (count − 1) / 100`.
pub open spec fn effective_index_spec(p: int, count: int) -> int {
    p * (count - 1) / 100
}

/// The percentage, capped at 100.
pub open spec fn capped_percent(percent: u32) -> int {
    if percent < 100 { percent as int } else { 100 }
}

/// Pick the gains for `percent` (capped at 100) from a gain table; `None`
/// for an empty table.
pub fn eti_cmdline_gain_selection(gains: &[i32], percent: u32) -> (r: Option<GainSelection>)
    requires gains@.len() * 100 <= usize::MAX,
    ensures
        gains@.len() == 0 ==> r is None,
        gains@.len() > 0 ==> (r matches Some(sel) && {
            let p = capped_percent(percent);
            let count = gains@.len() as int;
            &&& sel.set_index == set_index_spec(p, count)
            &&& sel.effective_index == effective_index_spec(p, count)
            &&& sel.set_gain_tenth_db == gains@[sel.set_index as int]
            &&& sel.effective_gain_tenth_db == gains@[sel.effective_index as int]
        }),
{
    if gains.len() == 0 {
        return None;
    }
    let p: usize = if percent < 100 { percent as usize } else { 100 };
    let count = gains.len();
    assert(p * count <= 100 * count) by (nonlinear_arith) requires p <= 100;
    let mut set_index: usize = p * count / 100;
    assert(p * (count - 1) <= 100 * (count - 1)) by (nonlinear_arith) requires p <= 100, count >= 1;
    let effective_index: usize = p * (count - 1) / 100;
    if set_index >= count {
        set_index = count - 1;
    }
    assert(effective_index < count) by (nonlinear_arith)
        requires effective_index == p * (count - 1) / 100, p <= 100, count >= 1;
    Some(GainSelection {
        set_index,
        effective_index,
        set_gain_tenth_db: gains[set_index],
        effective_gain_tenth_db: gains[effective_index],
    })
}

/// A higher percentage never selects a lower table entry, for the set gain
/// and for the reported gain alike; with an ascending gain table the
/// selected gains therefore never decrease.
pub proof fn lemma_gain_selection_monotonic(p1: int, p2: int, count: int)
    requires 0 <= p1 <= p2 <= 100, count >= 1,
    ensures
        set_index_spec(p1, count) <= set_index_spec(p2, count),
        effective_index_spec(p1, count) <= effective_index_spec(p2, count),
        0 <= set_index_spec(p2, count) < count,
        0 <= effective_index_spec(p2, count) < count,
{
    assert(p1 * count <= p2 * count) by (nonlinear_arith) requires p1 <= p2, count >= 1;
    assert(p1 * count / 100 <= p2 * count / 100) by (nonlinear_arith) requires p1 * count <= p2 * count;
    assert(p1 * (count - 1) <= p2 * (count - 1)) by (nonlinear_arith) requires p1 <= p2, count >= 1;
    assert(p1 * (count - 1) / 100 <= p2 * (count - 1) / 100) by (nonlinear_arith) requires p1 * (count - 1) <= p2 * (count - 1);
    assert(0 <= p2 * count / 100) by (nonlinear_arith) requires p2 >= 0, count >= 1;
    assert(0 <= p2 * (count - 1) / 100 < count) by (nonlinear_arith) requires 0 <= p2 <= 100, count >= 1;
}

} // verus!
