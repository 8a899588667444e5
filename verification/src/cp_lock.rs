//! Lock bookkeeping of the cyclic-prefix symbol detector.
//!
//! Each inspection of a chunk of 8-bit IQ bytes merges the tail kept from
//! the previous chunk with the new one, searches a window of offsets for
//! the cyclic-prefix correlation peak (that search is the caller's), and
//! then updates the prediction of where the next symbol starts. This module
//! holds the integer part: where to search, and what the detector keeps.

use vstd::prelude::*;
use crate::ofdm_sync::IQ_BYTES_PER_SAMPLE;

verus! {

/// Half width, in samples, of the tracking window around a prediction.
pub const TRACKING_HALF_WIDTH: usize = 32;
/// Half width, in samples, of the refinement window around a candidate.
pub const REFINE_HALF_WIDTH: usize = 3;
/// Consecutive misses after which the prediction is dropped.
pub const MAX_LOCK_MISSES: u8 = 8;

/// What the detector remembers between two chunks.
#[derive(Debug, Clone, Copy, PartialEq, Eq, Structural)]
pub struct CpLockState {
    /// Absolute sample index where the next symbol is expected.
    pub predicted_next_symbol_sample: Option<usize>,
    /// Chunks in a row without a detected symbol (saturating).
    pub lock_misses: u8,
    /// Samples of all chunks inspected so far.
    pub total_samples_seen: usize,
}

/// What happens to the smoothed carrier-offset estimate after a search.
#[derive(Debug, Clone, Copy, PartialEq, Eq, Structural)]
pub enum CfoUpdate {
    /// A symbol was found: blend its estimate into the smoothed one.
    Blend,
    /// Nothing found, lock kept: leave the estimate as it is.
    Keep,
    /// Lock lost: clear the estimate.
    Clear,
}

/// Where the correlation search of one inspection runs.
#[derive(Debug, Clone, Copy, PartialEq, Eq)]
pub struct SearchPlan {
    /// Samples in the merged buffer (kept tail plus chunk).
    pub sample_count: usize,
    /// Last offset at which a whole symbol fits, if one fits at all.
    pub max_offset: Option<usize>,
    /// Tracking window (first and last offset, inclusive) around the
    /// predicted symbol start, when there is a prediction and room to search.
    pub tracking: Option<(usize, usize)>,
}

/// The outcome of an inspection for the detector's memory.
#[derive(Debug, Clone, Copy, PartialEq, Eq, Structural)]
pub struct InspectOutcome {
    pub state: CpLockState,
    pub cfo: CfoUpdate,
    /// Bytes of the merged buffer kept, from its end, for the next chunk.
    pub tail_keep_bytes: usize,
}

/// `a - b`, or 0 where `b` is larger.
pub open spec fn sat_sub(a: int, b: int) -> int {
    if a > b { a - b } else { 0 }
}

/// `min(a, b)`.
pub open spec fn min_int(a: int, b: int) -> int {
    if a < b { a } else { b }
}

impl CpLockState {
    /// A detector that has seen nothing yet.
    pub fn new() -> (s: Self)
        ensures
            s.predicted_next_symbol_sample is None,
            s.lock_misses == 0,
            s.total_samples_seen == 0,
    {
        CpLockState { predicted_next_symbol_sample: None, lock_misses: 0, total_samples_seen: 0 }
    }
}

/// Window of offsets, local to the merged buffer, around the predicted
/// absolute start `predicted`: the merged buffer begins `tail_samples`
/// before the samples seen so far; the window reaches 32 samples to each
/// side and is cut at `max_offset`.
pub fn tracking_window(total_samples_seen: usize, tail_samples: usize, predicted: usize, max_offset: usize)
    -> (w: (usize, usize))
    ensures
        ({
            let pred_local = sat_sub(predicted as int, sat_sub(total_samples_seen as int, tail_samples as int));
            &&& w.0 == min_int(sat_sub(pred_local, 32), max_offset as int)
            &&& w.1 == min_int(pred_local + 32, max_offset as int)
        }),
        w.0 <= w.1 <= max_offset,
{
    let merged_start = total_samples_seen.saturating_sub(tail_samples);
    let pred_local = predicted.saturating_sub(merged_start);
    let start = pred_local.saturating_sub(TRACKING_HALF_WIDTH);
    let end = pred_local.saturating_add(TRACKING_HALF_WIDTH);
    let start = if start < max_offset { start } else { max_offset };
    let end = if end < max_offset { end } else { max_offset };
    (start, end)
}

/// Window of offsets around a candidate found at absolute sample
/// `candidate`: three samples to each side, cut at `max_offset`.
pub fn refine_window(candidate: usize, total_samples_seen: usize, max_offset: usize) -> (w: (usize, usize))
    ensures
        ({
            let local = sat_sub(candidate as int, total_samples_seen as int);
            &&& w.0 == min_int(sat_sub(local, 3), max_offset as int)
            &&& w.1 == min_int(local + 3, max_offset as int)
        }),
        w.0 <= w.1 <= max_offset,
{
    let local = candidate.saturating_sub(total_samples_seen);
    let start = local.saturating_sub(REFINE_HALF_WIDTH);
    let end = local.saturating_add(REFINE_HALF_WIDTH);
    let start = if start < max_offset { start } else { max_offset };
    let end = if end < max_offset { end } else { max_offset };
    (start, end)
}

/// Where to search in the merged buffer of `tail_bytes + chunk_bytes`
/// bytes. `None` when the chunk holds less than one sample: the detector
/// then reports nothing and keeps its state.
pub fn plan_search(state: CpLockState, tail_bytes: usize, chunk_bytes: usize, symbol_len: usize)
    -> (r: Option<SearchPlan>)
    requires
        tail_bytes + chunk_bytes <= usize::MAX,
    ensures
        chunk_bytes < 2 <==> r is None,
        r matches Some(p) ==> {
            let count = (tail_bytes + chunk_bytes) / 2;
            &&& p.sample_count == count
            &&& p.max_offset == (if count >= symbol_len { Some((count - symbol_len) as usize) } else { None::<usize> })
            &&& p.tracking == (match (p.max_offset, state.predicted_next_symbol_sample) {
                    (Some(m), Some(pred)) => {
                        let pred_local = sat_sub(pred as int,
                            sat_sub(state.total_samples_seen as int, (tail_bytes / 2) as int));
                        Some((min_int(sat_sub(pred_local, 32), m as int) as usize,
                              min_int(pred_local + 32, m as int) as usize))
                    },
                    _ => None::<(usize, usize)>,
                })
        },
{
    if chunk_bytes < IQ_BYTES_PER_SAMPLE {
        return None;
    }
    let sample_count = (tail_bytes + chunk_bytes) / IQ_BYTES_PER_SAMPLE;
    if sample_count < symbol_len {
        return Some(SearchPlan { sample_count, max_offset: None, tracking: None });
    }
    let max_offset = sample_count - symbol_len;
    let tracking = match state.predicted_next_symbol_sample {
        Some(pred) => Some(tracking_window(state.total_samples_seen, tail_bytes / IQ_BYTES_PER_SAMPLE, pred, max_offset)),
        None => None,
    };
    Some(SearchPlan { sample_count, max_offset: Some(max_offset), tracking })
}

/// The detector's memory after a chunk in which no symbol was found: the
/// misses count up (saturating), the eighth in a row drops the prediction,
/// and otherwise the prediction moves on by one symbol.
pub open spec fn missed_chunk(s: CpLockState, symbol_len: usize, chunk_bytes: usize) -> CpLockState {
    let misses: int = if s.lock_misses == 255 { 255 } else { s.lock_misses + 1 };
    CpLockState {
        predicted_next_symbol_sample: if misses >= 8 { None } else {
            match s.predicted_next_symbol_sample {
                Some(p) => Some((p + symbol_len) as usize),
                None => None,
            }
        },
        lock_misses: misses as u8,
        total_samples_seen: (s.total_samples_seen + chunk_bytes / 2) as usize,
    }
}

/// The memory after `k` chunks in a row without a symbol.
pub open spec fn missed_chunks(s: CpLockState, k: nat, symbol_len: usize, chunk_bytes: usize) -> CpLockState
    decreases k,
{
    if k == 0 { s } else { missed_chunk(missed_chunks(s, (k - 1) as nat, symbol_len, chunk_bytes), symbol_len, chunk_bytes) }
}

/// The state after a search over `sample_count` merged samples of a chunk
/// of `chunk_bytes` bytes: a symbol found at absolute sample `s` predicts
/// the next one `symbol_len` later and clears the misses; a miss is
/// `missed_chunk`. The tail keeps at most one symbol of samples, and the
/// samples seen grow by the chunk's samples.
pub fn finish_inspect(state: CpLockState, found: Option<usize>, symbol_len: usize, chunk_bytes: usize,
    sample_count: usize) -> (r: InspectOutcome)
    requires
        found matches Some(s) ==> s + symbol_len <= usize::MAX,
        found is None && state.predicted_next_symbol_sample is Some
            ==> state.predicted_next_symbol_sample->0 + symbol_len <= usize::MAX,
        min_int(symbol_len as int, sample_count as int) * 2 <= usize::MAX,
        state.total_samples_seen + chunk_bytes / 2 <= usize::MAX,
    ensures
        r.state.total_samples_seen == state.total_samples_seen + chunk_bytes / 2,
        r.tail_keep_bytes == min_int(symbol_len as int, sample_count as int) * 2,
        found matches Some(s) ==> {
            &&& r.state.predicted_next_symbol_sample == Some((s + symbol_len) as usize)
            &&& r.state.lock_misses == 0
            &&& r.cfo == CfoUpdate::Blend
        },
        found is None ==> {
            &&& r.state == missed_chunk(state, symbol_len, chunk_bytes)
            &&& r.cfo == (if r.state.lock_misses >= 8 { CfoUpdate::Clear } else { CfoUpdate::Keep })
        },
{
    let mut next = state;
    let cfo;
    match found {
        Some(s) => {
            next.predicted_next_symbol_sample = Some(s + symbol_len);
            next.lock_misses = 0;
            cfo = CfoUpdate::Blend;
        },
        None => {
            next.lock_misses = state.lock_misses.saturating_add(1);
            if next.lock_misses >= MAX_LOCK_MISSES {
                next.predicted_next_symbol_sample = None;
                cfo = CfoUpdate::Clear;
            } else {
                next.predicted_next_symbol_sample = match state.predicted_next_symbol_sample {
                    Some(p) => Some(p + symbol_len),
                    None => None,
                };
                cfo = CfoUpdate::Keep;
            }
        },
    }
    let keep_samples = if symbol_len < sample_count { symbol_len } else { sample_count };
    next.total_samples_seen = state.total_samples_seen + chunk_bytes / IQ_BYTES_PER_SAMPLE;
    InspectOutcome { state: next, cfo, tail_keep_bytes: keep_samples * IQ_BYTES_PER_SAMPLE }
}

/// After `k` chunks in a row without a symbol the miss count is at least
/// `k` (up to its saturation at 255); from eight on the prediction is gone,
/// whatever the detector remembered before.
pub proof fn lemma_misses_drop_the_prediction(s: CpLockState, k: nat, symbol_len: usize, chunk_bytes: usize)
    ensures
        missed_chunks(s, k, symbol_len, chunk_bytes).lock_misses >= min_int(k as int, 255),
        k >= 8 ==> missed_chunks(s, k, symbol_len, chunk_bytes).predicted_next_symbol_sample is None,
    decreases k,
{
    if k > 0 {
        lemma_misses_drop_the_prediction(s, (k - 1) as nat, symbol_len, chunk_bytes);
    }
}

} // verus!
