//! Integer decisions of the OFDM synchroniser: correlation thresholds,
//! coarse frequency correction, placement of symbol 0, follow-up of the
//! null-symbol search and frame bookkeeping.

use vstd::prelude::*;

verus! {

/// Bounds of the phase-correlation thresholds.
pub const OFDM_THRESHOLD_MIN: i16 = 2;
pub const OFDM_THRESHOLD_MAX: i16 = 7;
/// Tracking misses tolerated before re-acquisition (none).
pub const TRACKING_MISS_TOLERANCE: u8 = 0;
/// Sentinel of the phase reference: no correlation peak found.
pub const IDX_NOT_FOUND: i32 = 100000;
/// Half-width of the correlation search window around the guard interval.
pub const WINDOW_MARGIN: usize = 250;
/// Largest coarse correction (Hz) kept before the corrector is reset.
pub const COARSE_LIMIT_HZ: i32 = 35000;

/// Errors that make the processor stop.
#[derive(Debug, Clone, Copy, PartialEq, Eq, Structural)]
pub enum ProcessorError {
    Stopped,
}

/// Outcome of the search for the end of the null symbol.
#[derive(Debug, Clone, Copy, PartialEq, Eq, Structural)]
pub enum TimeSyncState {
    TimeSyncEstablished,
    NoDipFound,
    NoEndOfDipFound,
}

/// State of the null-symbol detector.
#[derive(Debug, Clone, Copy, PartialEq, Eq, Structural)]
pub enum NullState {
    /// Still searching; no transition has occurred.
    Searching,
    /// The amplitude dropped: inside the null symbol.
    NullFound,
    /// The amplitude rose again: the null symbol ended.
    EndOfNull,
    /// Timed out waiting for the null or its end.
    Timeout,
}

/// Decoding goes on after a coarse frequency step.
pub fn continue_after_coarse_step(coarse_step_applied: bool) -> (b: bool)
    ensures b,
{
    true
}

/// Apply a coarse correction: the not-found sentinel changes nothing;
/// otherwise the corrector moves by `correction_hz` and is reset to 0 once
/// its magnitude exceeds 35 kHz. Also tells whether a real step was made.
pub fn apply_coarse_correction(current_coarse: i32, correction_hz: i32) -> (r: (i32, bool))
    requires
        correction_hz != IDX_NOT_FOUND ==> i32::MIN < current_coarse + correction_hz <= i32::MAX,
    ensures
        correction_hz == IDX_NOT_FOUND ==> r == (current_coarse, false),
        correction_hz != IDX_NOT_FOUND ==> {
            let u = current_coarse + correction_hz;
            &&& r.0 == (if u > 35000 || u < -35000 { 0 } else { u })
            &&& r.1 == (correction_hz != 0)
        },
{
    if correction_hz == IDX_NOT_FOUND {
        return (current_coarse, false);
    }
    let mut updated = current_coarse + correction_hz;
    let magnitude = if updated < 0 { -updated } else { updated };
    if magnitude > COARSE_LIMIT_HZ {
        updated = 0;
    }
    (updated, correction_hz != 0)
}

pub open spec fn clamp_threshold(t: i16) -> i16 {
    if t < 2 { 2 } else if t > 7 { 7 } else { t }
}

/// Acquisition and tracking thresholds, each clamped to 2..=7, tracking
/// never below acquisition.
pub fn phase_threshold_pair(threshold_1: i16, threshold_2: i16) -> (r: (i16, i16))
    ensures
        r.0 == clamp_threshold(threshold_1),
        r.1 == (if clamp_threshold(threshold_2) < r.0 { r.0 } else { clamp_threshold(threshold_2) }),
{
    let acq = if threshold_1 < OFDM_THRESHOLD_MIN { OFDM_THRESHOLD_MIN } else if threshold_1 > OFDM_THRESHOLD_MAX { OFDM_THRESHOLD_MAX } else { threshold_1 };
    let t2 = if threshold_2 < OFDM_THRESHOLD_MIN { OFDM_THRESHOLD_MIN } else if threshold_2 > OFDM_THRESHOLD_MAX { OFDM_THRESHOLD_MAX } else { threshold_2 };
    let track = if t2 < acq { acq } else { t2 };
    (acq, track)
}

/// Start index of symbol 0: a found peak resets the miss budget and is
/// used; a miss never reuses an earlier start, forcing re-acquisition.
pub fn resolve_sync_start_index(raw_index: i32, last_sync_start_index: usize, tracking_miss_budget: &mut u8,
    t_u: usize, allow_single_miss_reuse: bool) -> (r: Option<usize>)
    ensures
        raw_index >= 0 ==> r == Some(raw_index as usize) && *final(tracking_miss_budget) == TRACKING_MISS_TOLERANCE,
        raw_index < 0 ==> r is None && *final(tracking_miss_budget) == *old(tracking_miss_budget),
{
    if raw_index >= 0 {
        *tracking_miss_budget = TRACKING_MISS_TOLERANCE;
        return Some(raw_index as usize);
    }
    None
}

/// What to do after a null-symbol search.
#[derive(Debug, Clone, Copy, PartialEq, Eq, Structural)]
pub struct TimeSyncFollowUpPlan {
    pub established: bool,
    pub attempts: i16,
    pub emit_warning: bool,
}

/// Follow-up of a null-symbol search: success resets the attempts, a
/// missing dip counts one more attempt (warning from the eighth on), a
/// dip without end resets them; no result means the receiver stopped.
pub fn plan_time_sync_follow_up(state: Option<TimeSyncState>, attempts: i16) -> (r: Result<TimeSyncFollowUpPlan, ProcessorError>)
    requires state == Some(TimeSyncState::NoDipFound) ==> attempts < i16::MAX,
    ensures
        r == (match state {
            Some(TimeSyncState::TimeSyncEstablished) => Ok(TimeSyncFollowUpPlan { established: true, attempts: 0, emit_warning: false }),
            Some(TimeSyncState::NoDipFound) => Ok(TimeSyncFollowUpPlan { established: false, attempts: (attempts + 1) as i16, emit_warning: attempts + 1 >= 8 }),
            Some(TimeSyncState::NoEndOfDipFound) => Ok(TimeSyncFollowUpPlan { established: false, attempts: 0, emit_warning: false }),
            None => Err::<TimeSyncFollowUpPlan, ProcessorError>(ProcessorError::Stopped),
        }),
{
    match state {
        Some(TimeSyncState::TimeSyncEstablished) => Ok(TimeSyncFollowUpPlan { established: true, attempts: 0, emit_warning: false }),
        Some(TimeSyncState::NoDipFound) => {
            let next_attempts = attempts + 1;
            Ok(TimeSyncFollowUpPlan { established: false, attempts: next_attempts, emit_warning: next_attempts >= 8 })
        }
        Some(TimeSyncState::NoEndOfDipFound) => Ok(TimeSyncFollowUpPlan { established: false, attempts: 0, emit_warning: false }),
        None => Err(ProcessorError::Stopped),
    }
}

/// Where symbol 0 starts in the buffer and how many samples to drop.
#[derive(Debug, Clone, Copy, PartialEq, Eq, Structural)]
pub struct SyncAlignmentPlan {
    pub start_index: usize,
    pub samples_to_fetch: usize,
    pub reused_previous_start: bool,
}

/// Alignment of symbol 0: only a found peak inside the useful part of the
/// symbol gives a plan.
pub fn build_sync_alignment_plan(raw_start_index: i32, last_sync_start_index: usize, tracking_miss_budget: &mut u8,
    t_u: usize, allow_single_miss_reuse: bool) -> (r: Option<SyncAlignmentPlan>)
    ensures
        raw_start_index >= 0 ==> *final(tracking_miss_budget) == TRACKING_MISS_TOLERANCE,
        raw_start_index < 0 ==> *final(tracking_miss_budget) == *old(tracking_miss_budget),
        r == (if raw_start_index >= 0 && (raw_start_index as usize) < t_u {
            Some(SyncAlignmentPlan {
                start_index: raw_start_index as usize,
                samples_to_fetch: raw_start_index as usize,
                reused_previous_start: raw_start_index < 0 && allow_single_miss_reuse,
            })
        } else {
            None
        }),
{
    let start_index = match resolve_sync_start_index(raw_start_index, last_sync_start_index, tracking_miss_budget, t_u, allow_single_miss_reuse) {
        Some(s) => s,
        None => { return None; }
    };
    if start_index >= t_u {
        return None;
    }
    Some(SyncAlignmentPlan {
        start_index,
        samples_to_fetch: start_index,
        reused_previous_start: raw_start_index < 0 && allow_single_miss_reuse,
    })
}

/// New coarse corrector and what the step implies.
#[derive(Debug, Clone, Copy, PartialEq, Eq, Structural)]
pub struct CoarseCorrectionPlan {
    pub updated_coarse_hz: i32,
    pub step_applied: bool,
    pub reset_clock_error: bool,
}

/// Coarse frequency correction from the phase reference: frozen (`None`)
/// when the alignment reused an earlier start, while soft-locked, or when
/// the RF quality does not support it (`rf_quality_ok` is the caller's
/// verdict); otherwise `apply_coarse_correction`, and a real step resets
/// the clock-error estimate.
pub fn plan_coarse_correction(reused_previous_start: bool, soft_locked: bool, current_coarse: i32,
    correction_hz: i32, rf_quality_ok: bool) -> (r: Option<CoarseCorrectionPlan>)
    requires
        !(reused_previous_start || soft_locked || !rf_quality_ok) && correction_hz != IDX_NOT_FOUND
            ==> i32::MIN < current_coarse + correction_hz <= i32::MAX,
    ensures
        (reused_previous_start || soft_locked || !rf_quality_ok) ==> r is None,
        !(reused_previous_start || soft_locked || !rf_quality_ok) ==> ({
            let u = current_coarse + correction_hz;
            let updated = if correction_hz == IDX_NOT_FOUND { current_coarse as int }
                else if u > 35000 || u < -35000 { 0 } else { u };
            let step = correction_hz != IDX_NOT_FOUND && correction_hz != 0;
            r == Some(CoarseCorrectionPlan { updated_coarse_hz: updated as i32, step_applied: step, reset_clock_error: step })
        }),
{
    if reused_previous_start || soft_locked || !rf_quality_ok {
        return None;
    }
    let (updated_coarse_hz, step_applied) = apply_coarse_correction(current_coarse, correction_hz);
    Some(CoarseCorrectionPlan { updated_coarse_hz, step_applied, reset_clock_error: step_applied })
}

/// Mixer frequency and frame sample count for reading one symbol.
#[derive(Debug, Clone, Copy, PartialEq, Eq, Structural)]
pub struct SymbolReadPlan {
    pub phase_hz: i32,
    pub next_frame_sample_count: usize,
}

/// Reading a symbol: the mixer runs at coarse plus fine correction (the
/// fine one in whole Hz, as the caller truncates it), and the frame count
/// advances by one symbol.
pub fn plan_symbol_read(coarse_corrector: i32, fine_hz: i32, frame_sample_count: usize, t_s: usize) -> (r: SymbolReadPlan)
    requires
        i32::MIN <= coarse_corrector + fine_hz <= i32::MAX,
        frame_sample_count + t_s <= usize::MAX,
    ensures
        r.phase_hz == coarse_corrector + fine_hz,
        r.next_frame_sample_count == frame_sample_count + t_s,
{
    SymbolReadPlan { phase_hz: coarse_corrector + fine_hz, next_frame_sample_count: frame_sample_count + t_s }
}

/// Sample count and clock-error decision at the end of a frame.
#[derive(Debug, Clone, Copy, PartialEq, Eq, Structural)]
pub struct FrameRestMetricsPlan {
    pub next_frame_sample_count: usize,
    pub should_integrate_clock_error: bool,
}

/// Count the null symbol into the frame length; the clock error is not
/// integrated over a frame in which a coarse step was applied.
pub fn plan_frame_rest_metrics(frame_sample_count: usize, null_symbol_len: usize, coarse_step_applied: bool) -> (r: FrameRestMetricsPlan)
    requires frame_sample_count + null_symbol_len <= usize::MAX,
    ensures
        r.next_frame_sample_count == frame_sample_count + null_symbol_len,
        r.should_integrate_clock_error == !coarse_step_applied,
{
    FrameRestMetricsPlan {
        next_frame_sample_count: frame_sample_count + null_symbol_len,
        should_integrate_clock_error: !coarse_step_applied,
    }
}

/// Correlation search window `[T_g − 250, T_g + 500)`, clipped to `[0, T_u]`.
pub fn correlation_search_window(t_g: usize, t_u: usize) -> (w: (usize, usize))
    requires t_g + 2 * WINDOW_MARGIN <= usize::MAX,
    ensures
        w.0 == (if t_g >= 250 { t_g - 250 } else { 0int }),
        w.1 == (if t_g + 500 < t_u { t_g + 500 } else { t_u as int }),
{
    let win_start = if t_g >= WINDOW_MARGIN { t_g - WINDOW_MARGIN } else { 0 };
    let end = t_g + 2 * WINDOW_MARGIN;
    let win_end = if end < t_u { end } else { t_u };
    (win_start, win_end)
}

/// Bytes per interleaved 8-bit IQ sample.
pub const IQ_BYTES_PER_SAMPLE: usize = 2;

/// Component `iq_idx` (0 = I, 1 = Q) of sample `sample_idx` of raw 8-bit
/// IQ data, centred on zero.
pub fn sample_i(iq: &[u8], sample_idx: usize, iq_idx: usize) -> (v: i16)
    requires
        iq_idx < 2,
        sample_idx * IQ_BYTES_PER_SAMPLE + iq_idx < iq@.len(),
    ensures v == iq@[sample_idx * IQ_BYTES_PER_SAMPLE + iq_idx] - 128,
{
    let n = iq.len();
    assert(sample_idx * IQ_BYTES_PER_SAMPLE < n);
    let byte_idx = sample_idx * IQ_BYTES_PER_SAMPLE + iq_idx;
    iq[byte_idx] as i16 - 128
}

/// Frames that the loop may hold through a fade before declaring sync loss.
pub const MAX_DEGRADED_HOLD_FRAMES: u8 = 12;
/// Hold frames given back by each good frame decoded while holding.
pub const HOLD_BUDGET_REFILL_PER_GOOD_FRAME: u8 = 1;

/// Stages of the frame synchronisation loop.
#[derive(Debug, Clone, Copy, PartialEq, Eq, Structural)]
pub enum SyncState {
    /// Search for the end of the null-symbol level drop.
    WaitForTimeSyncMarker,
    /// Evaluate the phase-reference symbol and align symbol 0.
    EvalSyncSymbol,
    /// Soft-locked hold through a fade: retry at the next frame boundary
    /// without declaring sync loss yet.
    DegradedHolding,
    /// Decode the rest of the frame once symbol 0 is aligned.
    ProcessRestOfFrame,
}

/// What a tracking miss led to.
#[derive(Debug, Clone, Copy, PartialEq, Eq, Structural)]
pub enum SyncRecovery {
    Hold,
    Lost,
}

/// Decisions of the frame synchronisation loop: stage, correlation
/// threshold in use, soft lock and the budget for holding through fades.
/// The RF quality tests that feed it are made by the caller and handed in
/// as their outcomes.
#[derive(Debug, Clone, Copy, PartialEq, Eq, Structural)]
pub struct SyncLoopControl {
    pub state: SyncState,
    pub attempts: i16,
    pub tracking_miss_budget: u8,
    pub acq_threshold: i16,
    pub track_threshold: i16,
    pub sync_threshold: i16,
    pub soft_locked: bool,
    pub degraded_holding: bool,
    pub hold_frames_remaining: u8,
    pub lock_frozen_until_next_frame: bool,
    pub sync_loss_reported: bool,
}

/// Hold budget after a good frame decoded while holding: one frame given
/// back, never above the maximum.
pub open spec fn refilled_budget(h: u8) -> u8 {
    if h + HOLD_BUDGET_REFILL_PER_GOOD_FRAME >= MAX_DEGRADED_HOLD_FRAMES { MAX_DEGRADED_HOLD_FRAMES } else { (h + HOLD_BUDGET_REFILL_PER_GOOD_FRAME) as u8 }
}

impl SyncLoopControl {
    /// Thresholds within 2..=7, tracking not below acquisition; the
    /// threshold in use is the acquisition one, or the tracking one while
    /// soft-locked and not holding; the hold budget never exceeds its
    /// maximum.
    pub open spec fn wf(&self) -> bool {
        &&& OFDM_THRESHOLD_MIN <= self.acq_threshold <= self.track_threshold <= OFDM_THRESHOLD_MAX
        &&& (self.sync_threshold == self.acq_threshold
            || (self.sync_threshold == self.track_threshold && self.soft_locked && !self.degraded_holding))
        &&& self.hold_frames_remaining <= MAX_DEGRADED_HOLD_FRAMES
    }

    /// The loop after a decoded frame; `release_hold` is whether the frame's
    /// RF quality is good enough to leave a degraded hold.
    pub open spec fn after_frame_processed(self, release_hold: bool) -> Self {
        let (holding, hold, threshold) = if self.degraded_holding {
            if release_hold {
                (false, MAX_DEGRADED_HOLD_FRAMES, self.track_threshold)
            } else {
                (true, refilled_budget(self.hold_frames_remaining), self.acq_threshold)
            }
        } else {
            (false, MAX_DEGRADED_HOLD_FRAMES, self.track_threshold)
        };
        SyncLoopControl {
            soft_locked: true,
            lock_frozen_until_next_frame: false,
            sync_loss_reported: false,
            degraded_holding: holding,
            hold_frames_remaining: hold,
            sync_threshold: threshold,
            state: SyncState::EvalSyncSymbol,
            ..self
        }
    }

    /// The loop after sync loss: back to the null-symbol search with the
    /// acquisition threshold and a full hold budget.
    pub open spec fn after_sync_lost(self) -> Self {
        SyncLoopControl {
            soft_locked: false,
            degraded_holding: false,
            lock_frozen_until_next_frame: false,
            hold_frames_remaining: MAX_DEGRADED_HOLD_FRAMES,
            sync_threshold: self.acq_threshold,
            state: SyncState::WaitForTimeSyncMarker,
            ..self
        }
    }

    /// Whether a tracking miss can be held through: soft-locked, not held
    /// already in this frame, budget left, and the RF quality allows it.
    pub open spec fn can_hold(self, rf_allows_hold: bool) -> bool {
        self.soft_locked && !self.lock_frozen_until_next_frame && self.hold_frames_remaining > 0 && rf_allows_hold
    }

    /// The loop after a tracking miss.
    pub open spec fn after_tracking_miss(self, rf_allows_hold: bool) -> Self {
        if self.can_hold(rf_allows_hold) {
            SyncLoopControl {
                degraded_holding: true,
                hold_frames_remaining: (self.hold_frames_remaining - 1) as u8,
                lock_frozen_until_next_frame: true,
                sync_threshold: self.acq_threshold,
                state: SyncState::DegradedHolding,
                ..self
            }
        } else {
            self.after_sync_lost()
        }
    }

    /// The loop at the next frame boundary during a hold.
    pub open spec fn after_degraded_frame_boundary(self) -> Self {
        SyncLoopControl { lock_frozen_until_next_frame: false, state: SyncState::EvalSyncSymbol, ..self }
    }

    /// The loop after `n` frames each lost to a fade: a tracking miss with
    /// RF quality that allows holding, then the next frame boundary.
    pub open spec fn after_faded_frames(self, n: nat) -> Self
        decreases n,
    {
        if n == 0 {
            self
        } else {
            self.after_faded_frames((n - 1) as nat).after_tracking_miss(true).after_degraded_frame_boundary()
        }
    }

    /// A loop waiting for the null symbol, with thresholds from
    /// `phase_threshold_pair` and a full hold budget.
    pub fn new(threshold_1: i16, threshold_2: i16) -> (c: Self)
        ensures
            c.wf(),
            c.state == SyncState::WaitForTimeSyncMarker,
            c.attempts == 0,
            c.tracking_miss_budget == TRACKING_MISS_TOLERANCE,
            c.acq_threshold == clamp_threshold(threshold_1),
            c.track_threshold == (if clamp_threshold(threshold_2) < c.acq_threshold { c.acq_threshold } else { clamp_threshold(threshold_2) }),
            c.sync_threshold == c.acq_threshold,
            !c.soft_locked, !c.degraded_holding, !c.lock_frozen_until_next_frame, !c.sync_loss_reported,
            c.hold_frames_remaining == MAX_DEGRADED_HOLD_FRAMES,
    {
        let (acq_threshold, track_threshold) = phase_threshold_pair(threshold_1, threshold_2);
        SyncLoopControl {
            state: SyncState::WaitForTimeSyncMarker,
            attempts: 0,
            tracking_miss_budget: TRACKING_MISS_TOLERANCE,
            acq_threshold,
            track_threshold,
            sync_threshold: acq_threshold,
            soft_locked: false,
            degraded_holding: false,
            hold_frames_remaining: MAX_DEGRADED_HOLD_FRAMES,
            lock_frozen_until_next_frame: false,
            sync_loss_reported: false,
        }
    }

    pub fn state(&self) -> (s: SyncState)
        ensures s == self.state,
    {
        self.state
    }

    pub fn current_threshold(&self) -> (t: i16)
        ensures t == self.sync_threshold,
    {
        self.sync_threshold
    }

    pub fn is_tracking_threshold(&self) -> (b: bool)
        ensures b == (self.sync_threshold == self.track_threshold),
    {
        self.sync_threshold == self.track_threshold
    }

    /// The null symbol ended: evaluate the phase reference next, with the
    /// acquisition threshold.
    pub fn on_time_sync_established(&mut self)
        requires old(self).wf(),
        ensures
            final(self).wf(),
            *final(self) == (SyncLoopControl {
                attempts: 0,
                sync_threshold: old(self).acq_threshold,
                state: SyncState::EvalSyncSymbol,
                ..*old(self)
            }),
    {
        self.attempts = 0;
        self.sync_threshold = self.acq_threshold;
        self.state = SyncState::EvalSyncSymbol;
    }

    /// Symbol 0 is aligned: decode the rest of the frame.
    pub fn on_sync_symbol_aligned(&mut self)
        requires old(self).wf(),
        ensures
            final(self).wf(),
            *final(self) == (SyncLoopControl { state: SyncState::ProcessRestOfFrame, ..*old(self) }),
    {
        self.state = SyncState::ProcessRestOfFrame;
    }

    /// A frame was decoded: the loop is soft-locked; out of a hold it
    /// tracks with the tracking threshold, in a hold it leaves the hold when
    /// `release_hold`, else gets one hold frame back.
    pub fn on_frame_processed(&mut self, release_hold: bool)
        requires old(self).wf(),
        ensures
            final(self).wf(),
            *final(self) == old(self).after_frame_processed(release_hold),
    {
        self.soft_locked = true;
        self.lock_frozen_until_next_frame = false;
        self.sync_loss_reported = false;
        if self.degraded_holding {
            if release_hold {
                self.degraded_holding = false;
                self.hold_frames_remaining = MAX_DEGRADED_HOLD_FRAMES;
                self.sync_threshold = self.track_threshold;
            } else {
                let refilled = if self.hold_frames_remaining >= MAX_DEGRADED_HOLD_FRAMES - HOLD_BUDGET_REFILL_PER_GOOD_FRAME {
                    MAX_DEGRADED_HOLD_FRAMES
                } else {
                    self.hold_frames_remaining + HOLD_BUDGET_REFILL_PER_GOOD_FRAME
                };
                self.hold_frames_remaining = refilled;
                self.sync_threshold = self.acq_threshold;
            }
        } else {
            self.hold_frames_remaining = MAX_DEGRADED_HOLD_FRAMES;
            self.sync_threshold = self.track_threshold;
        }
        self.state = SyncState::EvalSyncSymbol;
    }

    /// The phase reference was missed while tracking: hold through it when
    /// possible (one hold per frame, while budget is left and the RF quality
    /// allows it), else sync is lost.
    pub fn on_tracking_miss(&mut self, rf_allows_hold: bool) -> (r: SyncRecovery)
        requires old(self).wf(),
        ensures
            final(self).wf(),
            *final(self) == old(self).after_tracking_miss(rf_allows_hold),
            r == (if old(self).can_hold(rf_allows_hold) { SyncRecovery::Hold } else { SyncRecovery::Lost }),
    {
        let can_hold = self.soft_locked && !self.lock_frozen_until_next_frame && self.hold_frames_remaining > 0 && rf_allows_hold;
        if can_hold {
            self.degraded_holding = true;
            self.hold_frames_remaining = self.hold_frames_remaining - 1;
            self.lock_frozen_until_next_frame = true;
            self.sync_threshold = self.acq_threshold;
            self.state = SyncState::DegradedHolding;
            SyncRecovery::Hold
        } else {
            self.on_sync_lost();
            SyncRecovery::Lost
        }
    }

    /// Next frame boundary during a hold: try the phase reference again.
    pub fn on_degraded_frame_boundary(&mut self)
        requires old(self).wf(),
        ensures
            final(self).wf(),
            *final(self) == old(self).after_degraded_frame_boundary(),
    {
        self.lock_frozen_until_next_frame = false;
        self.state = SyncState::EvalSyncSymbol;
    }

    /// Whether to report the sync loss now: once per loss, until a frame
    /// is decoded again.
    pub fn should_report_sync_loss(&mut self) -> (r: bool)
        requires old(self).wf(),
        ensures
            final(self).wf(),
            r == !old(self).sync_loss_reported,
            *final(self) == (SyncLoopControl { sync_loss_reported: true, ..*old(self) }),
    {
        if self.sync_loss_reported {
            false
        } else {
            self.sync_loss_reported = true;
            true
        }
    }

    /// Sync is lost: back to the null-symbol search.
    pub fn on_sync_lost(&mut self)
        requires old(self).wf(),
        ensures
            final(self).wf(),
            *final(self) == old(self).after_sync_lost(),
    {
        self.soft_locked = false;
        self.degraded_holding = false;
        self.lock_frozen_until_next_frame = false;
        self.hold_frames_remaining = MAX_DEGRADED_HOLD_FRAMES;
        self.sync_threshold = self.acq_threshold;
        self.state = SyncState::WaitForTimeSyncMarker;
    }
}

/// Every step keeps the loop well formed: thresholds in range, the
/// tracking threshold only while soft-locked and not holding, the hold
/// budget within its maximum.
pub proof fn lemma_steps_keep_wf(c: SyncLoopControl, release_hold: bool, rf_allows_hold: bool)
    requires c.wf(),
    ensures
        c.after_frame_processed(release_hold).wf(),
        c.after_tracking_miss(rf_allows_hold).wf(),
        c.after_sync_lost().wf(),
        c.after_degraded_frame_boundary().wf(),
{
}

/// A sync loss is reported once: once reported, tracking misses, frame
/// boundaries and the loss itself leave it reported; only a decoded frame
/// lets the next loss be reported again.
pub proof fn lemma_loss_reported_once(c: SyncLoopControl, release_hold: bool, rf_allows_hold: bool)
    requires c.sync_loss_reported,
    ensures
        c.after_tracking_miss(rf_allows_hold).sync_loss_reported,
        c.after_sync_lost().sync_loss_reported,
        c.after_degraded_frame_boundary().sync_loss_reported,
        !c.after_frame_processed(release_hold).sync_loss_reported,
{
}

/// A fade is held through as many lost frames as the hold budget allows,
/// and sync is lost at the next miss: from a soft-locked loop with budget
/// `h`, after `n <= h` faded frames `h − n` hold frames are left, and a
/// further miss is held exactly when `n < h`.
pub proof fn lemma_fade_held_for_budget(c: SyncLoopControl, n: nat)
    requires
        c.wf(),
        c.soft_locked,
        !c.lock_frozen_until_next_frame,
        n <= c.hold_frames_remaining,
    ensures
        c.after_faded_frames(n).wf(),
        c.after_faded_frames(n).soft_locked,
        !c.after_faded_frames(n).lock_frozen_until_next_frame,
        c.after_faded_frames(n).hold_frames_remaining == c.hold_frames_remaining - n,
        c.after_faded_frames(n).can_hold(true) == (n < c.hold_frames_remaining),
    decreases n,
{
    if n > 0 {
        lemma_fade_held_for_budget(c, (n - 1) as nat);
    }
}

/// One-frame fades between decoded frames never wear the budget down: a
/// held miss followed by a decoded frame that does not yet leave the hold
/// restores the budget it had.
pub proof fn lemma_short_fades_keep_budget(c: SyncLoopControl)
    requires c.wf(), c.can_hold(true),
    ensures
        c.after_tracking_miss(true).after_degraded_frame_boundary().after_frame_processed(false).hold_frames_remaining
            == c.hold_frames_remaining,
        c.after_tracking_miss(true).after_degraded_frame_boundary().after_frame_processed(false).can_hold(true),
{
}

} // verus!
