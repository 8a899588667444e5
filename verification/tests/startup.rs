use dabctl::cp_lock::{finish_inspect, plan_search, refine_window, tracking_window, CfoUpdate, CpLockState};
use dabctl::receiver::{scan_exit_status, scan_step, startup_step, ScanAction, ScanPhase, StartupAction, StartupPhase};

fn run_startup(sync_time: i16, detect_time: i16, flags: &[(bool, bool)]) -> (StartupAction, usize) {
    let mut phase = StartupPhase::new(sync_time, detect_time);
    let mut sleeps = 0usize;
    for &(synced, recognized) in flags.iter().chain(std::iter::repeat(&(flags[flags.len() - 1]))) {
        let (next, action) = startup_step(phase, synced, recognized);
        phase = next;
        match action {
            StartupAction::Sleep => sleeps += 1,
            other => return (other, sleeps),
        }
    }
    unreachable!()
}

#[test]
fn startup_gives_up_after_sync_time_without_signal() {
    assert_eq!(run_startup(3, 5, &[(false, false)]), (StartupAction::GiveUp, 3));
    assert_eq!(run_startup(0, 5, &[(false, false)]), (StartupAction::GiveUp, 0));
}

#[test]
fn startup_waits_full_detect_time_without_ensemble() {
    assert_eq!(run_startup(3, 5, &[(true, false)]), (StartupAction::StartAudio, 5));
    assert_eq!(run_startup(3, 0, &[(true, false)]), (StartupAction::StartAudio, 0));
}

#[test]
fn startup_starts_once_ensemble_is_recognised() {
    // synced after two seconds, ensemble seen after the first detection second
    let flags = [(false, false), (false, false), (true, false), (true, true)];
    assert_eq!(run_startup(10, 10, &flags), (StartupAction::StartAudio, 3));
}

#[test]
fn startup_step_counts_down_sync_time() {
    let (next, action) = startup_step(StartupPhase::WaitSync { left: 2, detect: 7 }, false, true);
    assert_eq!(next, StartupPhase::WaitSync { left: 1, detect: 7 });
    assert_eq!(action, StartupAction::Sleep);
    let (next, action) = startup_step(StartupPhase::WaitSync { left: 2, detect: 7 }, true, false);
    assert_eq!(next, StartupPhase::WaitEnsemble { left: 6 });
    assert_eq!(action, StartupAction::Sleep);
}

#[test]
fn tracking_window_is_centred_on_prediction_and_clipped() {
    // merged buffer starts at sample 1000 - 300 = 700; prediction 1500 is local 800
    assert_eq!(tracking_window(1000, 300, 1500, 5000), (768, 832));
    assert_eq!(tracking_window(1000, 300, 1500, 810), (768, 810));
    // prediction before the buffer start maps to local 0
    assert_eq!(tracking_window(1000, 300, 100, 5000), (0, 32));
    assert_eq!(tracking_window(1000, 300, 1500, 500), (500, 500));
}

#[test]
fn refine_window_spans_three_samples_each_side() {
    assert_eq!(refine_window(1010, 1000, 100), (7, 13));
    assert_eq!(refine_window(1001, 1000, 100), (0, 4));
    assert_eq!(refine_window(1200, 1000, 100), (100, 100));
}

#[test]
fn plan_search_needs_a_sample_and_a_symbol() {
    let state = CpLockState::new();
    assert!(plan_search(state, 0, 1, 10).is_none());
    let p = plan_search(state, 0, 8, 10).unwrap();
    assert_eq!(p.sample_count, 4);
    assert_eq!(p.max_offset, None);
    assert_eq!(p.tracking, None);
    let p = plan_search(state, 20, 30, 10).unwrap();
    assert_eq!(p.sample_count, 25);
    assert_eq!(p.max_offset, Some(15));
    assert_eq!(p.tracking, None);
    let locked = CpLockState { predicted_next_symbol_sample: Some(1005), lock_misses: 0, total_samples_seen: 1000 };
    let p = plan_search(locked, 20, 30, 10).unwrap();
    assert_eq!(p.tracking, Some((0, 15)));
}

#[test]
fn found_symbol_predicts_the_next_one() {
    let state = CpLockState { predicted_next_symbol_sample: None, lock_misses: 5, total_samples_seen: 1000 };
    let out = finish_inspect(state, Some(1234), 2552, 4096, 3000);
    assert_eq!(out.state.predicted_next_symbol_sample, Some(1234 + 2552));
    assert_eq!(out.state.lock_misses, 0);
    assert_eq!(out.state.total_samples_seen, 1000 + 2048);
    assert_eq!(out.cfo, CfoUpdate::Blend);
    assert_eq!(out.tail_keep_bytes, 2552 * 2);
}

#[test]
fn eighth_miss_drops_the_prediction() {
    let mut state = CpLockState { predicted_next_symbol_sample: Some(100), lock_misses: 0, total_samples_seen: 0 };
    for i in 1..=7u8 {
        let out = finish_inspect(state, None, 10, 6, 2);
        assert_eq!(out.cfo, CfoUpdate::Keep);
        assert_eq!(out.state.lock_misses, i);
        assert_eq!(out.state.predicted_next_symbol_sample, Some(100 + 10 * i as usize));
        assert_eq!(out.tail_keep_bytes, 4);
        state = out.state;
    }
    let out = finish_inspect(state, None, 10, 6, 2);
    assert_eq!(out.cfo, CfoUpdate::Clear);
    assert_eq!(out.state.predicted_next_symbol_sample, None);
    assert_eq!(out.state.total_samples_seen, 24);
    let saturated = CpLockState { predicted_next_symbol_sample: None, lock_misses: 255, total_samples_seen: 0 };
    assert_eq!(finish_inspect(saturated, None, 10, 6, 2).state.lock_misses, 255);
}

/// Runs a scan where each step sees the flags of `flags[min(step, last)]`:
/// (synced, running, ensemble recognised, services listed).
fn run_scan(sync_time: i16, detect_time: i16, flags: &[(bool, bool, bool, usize)]) -> (ScanAction, usize) {
    let mut phase = ScanPhase::new(sync_time, detect_time);
    let mut sleeps = 0usize;
    for step in 0..1000usize {
        let (synced, running, recognized, services) = flags[step.min(flags.len() - 1)];
        let (next, action) = scan_step(phase, synced, running, recognized, services);
        phase = next;
        match action {
            ScanAction::Sleep => sleeps += 1,
            other => return (other, sleeps),
        }
    }
    unreachable!()
}

#[test]
fn scan_reports_no_signal_after_sync_time() {
    assert_eq!(run_scan(4, 10, &[(false, true, false, 0)]), (ScanAction::NoSignal, 4));
}

#[test]
fn scan_interrupt_ends_sync_wait_early() {
    let flags = [(false, true, false, 0), (false, false, false, 0)];
    assert_eq!(run_scan(10, 10, &flags), (ScanAction::NoSignal, 1));
}

#[test]
fn scan_stops_detection_after_half_time_once_services_are_known() {
    // synced at once; ensemble and one service known from the start
    assert_eq!(run_scan(10, 10, &[(true, true, true, 1)]), (ScanAction::Summarize, 5));
    // nothing found: the whole detection time
    assert_eq!(run_scan(10, 10, &[(true, true, false, 0)]), (ScanAction::Summarize, 10));
    // an interrupt during detection summarises after the current second
    let flags = [(true, true, false, 0), (true, false, false, 0)];
    assert_eq!(run_scan(10, 10, &flags), (ScanAction::Summarize, 1));
}

#[test]
fn scan_exit_status_flags_fic_without_crc() {
    assert_eq!(scan_exit_status(0, 12), 2);
    assert_eq!(scan_exit_status(3, 12), 0);
    assert_eq!(scan_exit_status(0, 0), 0);
}
