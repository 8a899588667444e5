use dabctl::ofdm_sync::{
    apply_coarse_correction, build_sync_alignment_plan, continue_after_coarse_step,
    correlation_search_window, phase_threshold_pair, plan_coarse_correction, plan_frame_rest_metrics,
    plan_symbol_read, plan_time_sync_follow_up, resolve_sync_start_index, sample_i, SyncLoopControl, SyncRecovery,
    SyncState, TimeSyncState, IDX_NOT_FOUND, MAX_DEGRADED_HOLD_FRAMES, OFDM_THRESHOLD_MAX,
    OFDM_THRESHOLD_MIN, TRACKING_MISS_TOLERANCE, WINDOW_MARGIN,
};
use dabctl::dab_params::DabParams;
use dabctl::receiver::{is_metadata_blackout_during_dropout, parse_sid, update_fic_confidence_steps, CHANNEL_CAPACITY};
use dabctl::sim::{conv_encode, count_errors, Lcg, SIM_K, SIM_RATE};

#[test]
fn phase_threshold_pair_uses_the_explicit_tracking_threshold() {
    let (acq, track) = phase_threshold_pair(2, 5);
    assert_eq!(acq, 2);
    assert_eq!(track, 5);
}

#[test]
fn phase_threshold_pair_clamps_both_thresholds_independently() {
    let (acq, track) = phase_threshold_pair(0, 99);
    assert_eq!(acq, OFDM_THRESHOLD_MIN);
    assert_eq!(track, OFDM_THRESHOLD_MAX);
}

#[test]
fn tracking_miss_forces_immediate_reacquisition() {
    let mut budget = TRACKING_MISS_TOLERANCE;
    let reused = resolve_sync_start_index(-1, 384, &mut budget, 2048, true);
    assert_eq!(reused, None);
    assert_eq!(budget, TRACKING_MISS_TOLERANCE);
}

#[test]
fn repeated_negative_tracking_misses_keep_reacquiring() {
    let mut budget = TRACKING_MISS_TOLERANCE;
    assert_eq!(resolve_sync_start_index(-1, 384, &mut budget, 2048, true), None);
    assert_eq!(resolve_sync_start_index(-1, 384, &mut budget, 2048, true), None);
    assert_eq!(resolve_sync_start_index(-1, 384, &mut budget, 2048, true), None);
    assert_eq!(budget, TRACKING_MISS_TOLERANCE);
}

#[test]
fn acquisition_miss_must_not_reuse_last_good_start() {
    let mut budget = TRACKING_MISS_TOLERANCE;
    let reused = resolve_sync_start_index(-1, 384, &mut budget, 2048, false);
    assert_eq!(reused, None);
    assert_eq!(budget, TRACKING_MISS_TOLERANCE);
}

#[test]
fn second_tracking_miss_forces_reacquisition() {
    let mut budget = 0;
    let reused = resolve_sync_start_index(-1, 384, &mut budget, 2048, true);
    assert_eq!(reused, None);
}

#[test]
fn coarse_step_does_not_force_reacquisition_like_dabstar() {
    assert!(continue_after_coarse_step(false));
    assert!(continue_after_coarse_step(true));
}

#[test]
fn apply_coarse_correction_reports_real_steps_only() {
    let (updated, step_applied) = apply_coarse_correction(0, 3_000);
    assert_eq!(updated, 3_000);
    assert!(step_applied);
    let (subbin_updated, subbin_step) = apply_coarse_correction(100, 550);
    assert_eq!(subbin_updated, 650);
    assert!(subbin_step);
    let (unchanged, zero_step) = apply_coarse_correction(5_000, 0);
    assert_eq!(unchanged, 5_000);
    assert!(!zero_step);
    let (sentinel_unchanged, sentinel_step) = apply_coarse_correction(5_000, IDX_NOT_FOUND);
    assert_eq!(sentinel_unchanged, 5_000);
    assert!(!sentinel_step);
}

#[test]
fn apply_coarse_correction_resets_on_dabstar_overflow_guard() {
    let (updated, step_applied) = apply_coarse_correction(34_500, 1_000);
    assert_eq!(updated, 0);
    assert!(step_applied);
}

#[test]
fn not_found_marker_keeps_any_corrector() {
    assert_eq!(apply_coarse_correction(i32::MAX, IDX_NOT_FOUND), (i32::MAX, false));
    assert_eq!(apply_coarse_correction(i32::MIN, IDX_NOT_FOUND), (i32::MIN, false));
}

#[test]
fn time_sync_follow_up_warns_after_eighth_missed_null() {
    let plan = match plan_time_sync_follow_up(Some(TimeSyncState::NoDipFound), 7) {
        Ok(plan) => plan,
        Err(_) => panic!("time sync planning should succeed for NoDipFound"),
    };
    assert!(!plan.established);
    assert_eq!(plan.attempts, 8);
    assert!(plan.emit_warning);
}

#[test]
fn time_sync_follow_up_resets_attempts_after_partial_dip() {
    let plan = match plan_time_sync_follow_up(Some(TimeSyncState::NoEndOfDipFound), 4) {
        Ok(plan) => plan,
        Err(_) => panic!("time sync planning should succeed for NoEndOfDipFound"),
    };
    assert!(!plan.established);
    assert_eq!(plan.attempts, 0);
    assert!(!plan.emit_warning);
}

#[test]
fn time_sync_follow_up_without_result_means_stopped() {
    assert!(plan_time_sync_follow_up(None, 3).is_err());
    let plan = plan_time_sync_follow_up(Some(TimeSyncState::TimeSyncEstablished), 3).ok().unwrap();
    assert!(plan.established);
    assert_eq!(plan.attempts, 0);
}

#[test]
fn sync_alignment_plan_rejects_tracking_miss_reuse() {
    let mut budget = TRACKING_MISS_TOLERANCE;
    let plan = build_sync_alignment_plan(-1, 384, &mut budget, 2048, true);
    assert!(plan.is_none());
    assert_eq!(budget, TRACKING_MISS_TOLERANCE);
}

#[test]
fn sync_alignment_plan_uses_detected_start_when_available() {
    let mut budget = 0;
    let plan = build_sync_alignment_plan(512, 384, &mut budget, 2048, false).unwrap();
    assert_eq!(plan.start_index, 512);
    assert_eq!(plan.samples_to_fetch, 512);
    assert!(!plan.reused_previous_start);
    assert_eq!(budget, TRACKING_MISS_TOLERANCE);
}

#[test]
fn frame_rest_metrics_plan_skips_clock_update_after_coarse_step() {
    let plan = plan_frame_rest_metrics(10_000, 2656, true);
    assert_eq!(plan.next_frame_sample_count, 12_656);
    assert!(!plan.should_integrate_clock_error);
}

#[test]
fn find_index_window_bounds_mode1() {
    let p = DabParams::new(1);
    let t_g = p.t_g as usize;
    let t_u = p.t_u as usize;
    let (win_start, win_end) = correlation_search_window(t_g, t_u);
    assert!(win_start < win_end);
    assert!(win_end <= t_u);
    assert_eq!(win_start, 254);
    assert_eq!(win_end, 1004);
    assert_eq!(WINDOW_MARGIN, 250);
}

#[test]
fn find_index_window_bounds_mode2() {
    let p = DabParams::new(2);
    let t_g = p.t_g as usize;
    let t_u = p.t_u as usize;
    let (win_start, win_end) = correlation_search_window(t_g, t_u);
    assert!(win_start < win_end);
    assert!(win_end <= t_u);
    assert_eq!(win_start, 0);
}

#[test]
fn encoder_output_length_matches_rate() {
    let data = vec![0u8; 64];
    let enc = conv_encode(&data);
    assert_eq!(enc.len(), SIM_RATE * (64 + SIM_K - 1));
}

#[test]
fn encoder_all_zeros_produces_all_zeros() {
    let data = vec![0u8; 32];
    let enc = conv_encode(&data);
    assert!(enc.iter().all(|&b| b == 0), "all-zero input must give all-zero code");
}

#[test]
fn encoder_all_ones_first_symbol_is_all_ones() {
    let data = vec![1u8, 0, 0, 0, 0, 0, 0, 0];
    let enc = conv_encode(&data);
    assert_eq!(&enc[0..4], &[1, 1, 1, 1], "first encoded group should be all-ones");
}

#[test]
fn lcg_produces_full_range_output() {
    let mut rng = Lcg::new(42);
    let vals: Vec<u32> = (0..16).map(|_| rng.next_u32()).collect();
    let has_high = vals.iter().any(|&v| v >= 0x8000_0000);
    let has_low = vals.iter().any(|&v| v < 0x8000_0000);
    assert!(has_high && has_low, "LCG must produce values in both halves of u32");
}

#[test]
fn count_errors_counts_differences_in_common_prefix() {
    assert_eq!(count_errors(&[0, 1, 1, 0], &[0, 0, 1, 1, 1]), 2);
    assert_eq!(count_errors(&[], &[1]), 0);
}

#[test]
fn channel_capacity_constant_is_four() {
    assert_eq!(CHANNEL_CAPACITY, 4);
}

#[test]
fn missing_aus_is_difference_between_expected_and_decoded() {
    let au_count: usize = 3;
    let decoded: usize = 0;
    assert_eq!(au_count.saturating_sub(decoded), 3);
    let decoded: usize = 2;
    assert_eq!(au_count.saturating_sub(decoded), 1);
    let decoded: usize = 3;
    assert_eq!(au_count.saturating_sub(decoded), 0);
}

#[test]
fn missing_aus_saturates_at_zero_when_decoded_exceeds_au_count() {
    let au_count: usize = 3;
    let decoded: usize = 5;
    assert_eq!(au_count.saturating_sub(decoded), 0);
}

#[test]
fn metadata_blackout_detects_dropout_without_dls_or_slide() {
    assert!(is_metadata_blackout_during_dropout(1, 10, 0, 0));
    assert!(is_metadata_blackout_during_dropout(0, 42, 0, 0));
}

#[test]
fn metadata_blackout_is_false_when_sync_not_degraded_or_metadata_present() {
    assert!(!is_metadata_blackout_during_dropout(10, 1, 0, 0));
    assert!(!is_metadata_blackout_during_dropout(1, 10, 1, 0));
    assert!(!is_metadata_blackout_during_dropout(1, 10, 0, 1));
}

#[test]
fn fic_confidence_builds_faster_than_it_decays() {
    let built = update_fic_confidence_steps(0, 3, 3);
    let decayed = update_fic_confidence_steps(built, 0, 3);
    assert!(built >= 6);
    assert!(decayed >= built - 1);
}

#[test]
fn fic_confidence_zero_means_never_decoded_since_startup() {
    let built = update_fic_confidence_steps(0, 3, 3);
    let held = update_fic_confidence_steps(built, 0, 0);
    assert!(built > 0);
    assert_eq!(held, built);
}

#[derive(Debug, Clone, Copy, PartialEq, Eq)]
enum MetaEvent {
    Service,
    Dls,
    Slide,
}

fn simulate_metadata_step(service_announced: bool, service_ready: bool, has_dls: bool, has_slide: bool) -> (bool, Vec<MetaEvent>) {
    let mut announced = service_announced;
    let mut events = Vec::new();
    if !announced && service_ready {
        events.push(MetaEvent::Service);
        announced = true;
    }
    if has_dls {
        events.push(MetaEvent::Dls);
    }
    if has_slide {
        events.push(MetaEvent::Slide);
    }
    (announced, events)
}

#[test]
fn metadata_sequence_keeps_service_first_with_intermittent_sync_loss() {
    let mut announced = false;
    let mut sequence = Vec::new();
    for (ready, dls, slide) in [(true, false, false), (true, false, false), (true, true, true)] {
        let (a, mut e) = simulate_metadata_step(announced, ready, dls, slide);
        announced = a;
        sequence.append(&mut e);
    }
    assert!(announced);
    assert_eq!(sequence, vec![MetaEvent::Service, MetaEvent::Dls, MetaEvent::Slide]);
}

#[test]
fn metadata_sequence_does_not_reemit_service_after_recovery() {
    let mut announced = false;
    let mut service_count = 0usize;
    let timeline = [(true, false, false), (true, false, false), (true, false, false), (true, true, false), (true, false, true)];
    for (service_ready, has_dls, has_slide) in timeline {
        let (a, events) = simulate_metadata_step(announced, service_ready, has_dls, has_slide);
        announced = a;
        service_count += events.iter().filter(|&&ev| ev == MetaEvent::Service).count();
    }
    assert_eq!(service_count, 1);
}

#[derive(Debug, Clone, Copy, PartialEq, Eq)]
struct StabilityStats {
    seconds: usize,
    dropout_seconds: usize,
    blackout_seconds: usize,
}

#[derive(Debug, Clone, Copy, PartialEq, Eq)]
struct StabilityAcceptance {
    max_dropout_pct: usize,
    max_blackout_pct: usize,
}

fn parse_status_field_i32(line: &str, key: &str) -> Option<i32> {
    line.split_whitespace()
        .find_map(|token| token.strip_prefix(&format!("{key}=")))
        .and_then(|value| value.parse::<i32>().ok())
}

fn parse_status_field_bool(line: &str, key: &str) -> Option<bool> {
    line.split_whitespace()
        .find_map(|token| token.strip_prefix(&format!("{key}=")))
        .and_then(|value| value.parse::<bool>().ok())
}

fn collect_stability_stats_from_status_lines(lines: &[&str]) -> StabilityStats {
    let mut seconds = 0usize;
    let mut dropout_seconds = 0usize;
    let mut blackout_seconds = 0usize;
    for line in lines {
        if !line.contains(" status ") {
            continue;
        }
        let sync_ok = parse_status_field_i32(line, "sync_ok").unwrap_or(0);
        let sync_fail = parse_status_field_i32(line, "sync_fail").unwrap_or(0);
        let metadata_blackout = parse_status_field_bool(line, "metadata_blackout").unwrap_or_else(|| {
            let dls = parse_status_field_i32(line, "dls_events").unwrap_or(0);
            let slide = parse_status_field_i32(line, "slide_events").unwrap_or(0);
            is_metadata_blackout_during_dropout(sync_ok, sync_fail, dls, slide)
        });
        seconds += 1;
        if sync_fail > sync_ok {
            dropout_seconds += 1;
        }
        if metadata_blackout {
            blackout_seconds += 1;
        }
    }
    StabilityStats { seconds, dropout_seconds, blackout_seconds }
}

fn acceptance_for_campaign_window(window_seconds: usize) -> StabilityAcceptance {
    match window_seconds {
        300 => StabilityAcceptance { max_dropout_pct: 40, max_blackout_pct: 20 },
        900 => StabilityAcceptance { max_dropout_pct: 30, max_blackout_pct: 15 },
        1800 => StabilityAcceptance { max_dropout_pct: 20, max_blackout_pct: 10 },
        _ => StabilityAcceptance { max_dropout_pct: 30, max_blackout_pct: 15 },
    }
}

fn campaign_window_passes(stats: StabilityStats, acceptance: StabilityAcceptance) -> bool {
    if stats.seconds == 0 {
        return false;
    }
    let dropout_pct = stats.dropout_seconds * 100 / stats.seconds;
    let blackout_pct = stats.blackout_seconds * 100 / stats.seconds;
    dropout_pct <= acceptance.max_dropout_pct && blackout_pct <= acceptance.max_blackout_pct
}

#[test]
fn campaign_acceptance_profiles_for_5_15_30_min_windows() {
    assert_eq!(acceptance_for_campaign_window(300), StabilityAcceptance { max_dropout_pct: 40, max_blackout_pct: 20 });
    assert_eq!(acceptance_for_campaign_window(900), StabilityAcceptance { max_dropout_pct: 30, max_blackout_pct: 15 });
    assert_eq!(acceptance_for_campaign_window(1800), StabilityAcceptance { max_dropout_pct: 20, max_blackout_pct: 10 });
}

#[test]
fn log_driven_stats_collects_dropout_and_blackout_from_status_lines() {
    let lines = vec![
        "2026-04-11T22:49:11Z DEBUG status sync_ok=8 sync_fail=1 dls_events=1 slide_events=0 metadata_blackout=false",
        "2026-04-11T22:49:22Z DEBUG status sync_ok=3 sync_fail=22 dls_events=0 slide_events=0 metadata_blackout=true",
        "2026-04-11T22:49:23Z DEBUG status sync_ok=0 sync_fail=42 dls_events=0 slide_events=0 metadata_blackout=true",
        "2026-04-11T22:49:29Z DEBUG status sync_ok=8 sync_fail=0 dls_events=1 slide_events=1 metadata_blackout=false",
    ];
    let stats = collect_stability_stats_from_status_lines(&lines);
    assert_eq!(stats.seconds, 4);
    assert_eq!(stats.dropout_seconds, 2);
    assert_eq!(stats.blackout_seconds, 2);
}

#[test]
fn campaign_window_passes_when_under_thresholds() {
    let stats = StabilityStats { seconds: 300, dropout_seconds: 90, blackout_seconds: 45 };
    let acceptance = acceptance_for_campaign_window(300);
    assert!(campaign_window_passes(stats, acceptance));
}

#[test]
fn campaign_window_fails_when_blackout_exceeds_threshold() {
    let stats = StabilityStats { seconds: 900, dropout_seconds: 200, blackout_seconds: 180 };
    let acceptance = acceptance_for_campaign_window(900);
    assert!(!campaign_window_passes(stats, acceptance));
}

// The RF quality verdicts that the receiver hands to the synchronisation
// loop, computed here from post-equaliser quality and weak-carrier ratio as
// the receiver computes them.
fn structural_hold_allowed(post_eq_quality: f32, eq_weak_ratio: f32) -> bool {
    post_eq_quality >= 0.30 && eq_weak_ratio <= 0.30
}

fn structural_collapse_detected(post_eq_quality: f32, eq_weak_ratio: f32) -> bool {
    post_eq_quality <= 0.18 || eq_weak_ratio >= 0.60
}

fn rf_allows_hold(post_eq_quality: f32, eq_weak_ratio: f32) -> bool {
    structural_hold_allowed(post_eq_quality, eq_weak_ratio)
        && !structural_collapse_detected(post_eq_quality, eq_weak_ratio)
}

fn release_hold(post_eq_quality: f32, eq_weak_ratio: f32) -> bool {
    post_eq_quality >= 0.50 && eq_weak_ratio <= 0.25
}

#[test]
fn sync_loop_control_promotes_to_tracking_after_good_frame() {
    let mut control = SyncLoopControl::new(3, 6);
    assert_eq!(control.state(), SyncState::WaitForTimeSyncMarker);

    control.on_time_sync_established();
    assert_eq!(control.state(), SyncState::EvalSyncSymbol);
    assert_eq!(control.current_threshold(), 3);

    control.on_frame_processed(release_hold(0.75, 0.10));
    assert_eq!(control.state(), SyncState::EvalSyncSymbol);
    assert_eq!(control.current_threshold(), 6);
}

#[test]
fn sync_loop_control_enters_degraded_holding_before_drop() {
    let mut control = SyncLoopControl::new(2, 5);
    control.on_time_sync_established();
    control.on_frame_processed(release_hold(0.72, 0.08));

    let outcome = control.on_tracking_miss(rf_allows_hold(0.36, 0.18));

    assert_eq!(outcome, SyncRecovery::Hold);
    assert_eq!(control.state(), SyncState::DegradedHolding);
    assert_eq!(control.current_threshold(), 2);
}

#[test]
fn sync_loop_control_only_drops_after_hold_budget_is_exhausted() {
    let mut control = SyncLoopControl::new(2, 5);
    control.on_time_sync_established();
    control.on_frame_processed(release_hold(0.72, 0.08));

    assert_eq!(control.on_tracking_miss(rf_allows_hold(0.34, 0.20)), SyncRecovery::Hold);
    for _ in 0..MAX_DEGRADED_HOLD_FRAMES.saturating_sub(1) {
        control.on_degraded_frame_boundary();
        assert_eq!(control.on_tracking_miss(rf_allows_hold(0.34, 0.20)), SyncRecovery::Hold);
    }

    control.on_degraded_frame_boundary();
    assert_eq!(control.on_tracking_miss(rf_allows_hold(0.12, 0.72)), SyncRecovery::Lost);
    assert_eq!(control.state(), SyncState::WaitForTimeSyncMarker);
}

#[test]
fn sync_loop_control_refills_hold_budget_after_recovered_frame() {
    let mut control = SyncLoopControl::new(2, 5);
    control.on_time_sync_established();
    control.on_frame_processed(release_hold(0.72, 0.08));

    for cycle in 0..(MAX_DEGRADED_HOLD_FRAMES as usize + 2) {
        assert_eq!(
            control.on_tracking_miss(rf_allows_hold(0.34, 0.20)),
            SyncRecovery::Hold,
            "intermittent fade cycle {cycle} should stay in degraded hold"
        );
        control.on_degraded_frame_boundary();
        control.on_frame_processed(release_hold(0.40, 0.20));
        assert_eq!(control.state(), SyncState::EvalSyncSymbol);
    }
}

#[test]
fn sync_loop_control_returns_to_acquisition_after_sync_loss() {
    let mut control = SyncLoopControl::new(3, 6);
    control.on_time_sync_established();
    control.on_frame_processed(release_hold(0.72, 0.10));

    control.on_sync_lost();
    assert_eq!(control.state(), SyncState::WaitForTimeSyncMarker);
    assert_eq!(control.current_threshold(), 3);
}

#[test]
fn sync_loop_control_reports_each_loss_once() {
    let mut control = SyncLoopControl::new(2, 5);
    assert!(control.should_report_sync_loss());
    assert!(!control.should_report_sync_loss());
    control.on_sync_lost();
    assert!(!control.should_report_sync_loss());
    control.on_time_sync_established();
    control.on_frame_processed(true);
    assert!(control.is_tracking_threshold());
    assert!(control.should_report_sync_loss());
}

#[test]
fn sync_loop_control_holds_only_once_per_frame() {
    let mut control = SyncLoopControl::new(2, 5);
    control.on_time_sync_established();
    control.on_frame_processed(true);
    assert_eq!(control.on_tracking_miss(true), SyncRecovery::Hold);
    // a second miss before the next frame boundary is not held
    assert_eq!(control.on_tracking_miss(true), SyncRecovery::Lost);
    assert_eq!(control.hold_frames_remaining, MAX_DEGRADED_HOLD_FRAMES);
}

#[test]
fn coarse_correction_plan_respects_structural_gate() {
    assert!(plan_coarse_correction(false, false, 500, 1_000, rf_allows_hold(0.20, 0.10)).is_none());
    assert!(plan_coarse_correction(false, false, 500, 1_000, rf_allows_hold(0.40, 0.70)).is_none());

    let plan = plan_coarse_correction(false, false, 500, 1_000, rf_allows_hold(0.72, 0.10))
        .expect("coarse correction should be considered during acquisition when RF structure is healthy");
    assert_eq!(plan.updated_coarse_hz, 1_500);
    assert!(plan.step_applied);
    assert!(plan.reset_clock_error);
}

#[test]
fn coarse_correction_plan_skips_reused_tracking_alignment() {
    assert!(plan_coarse_correction(true, false, 500, 1_000, rf_allows_hold(0.72, 0.10)).is_none());
}

#[test]
fn coarse_correction_plan_freezes_during_soft_lock() {
    assert!(plan_coarse_correction(false, true, 500, 6, rf_allows_hold(0.72, 0.10)).is_none());
}

#[test]
fn symbol_read_plan_uses_combined_afc_and_advances_frame_count() {
    let plan = plan_symbol_read(2_000, -33.5f32 as i32, 4_096, 2_552);
    assert_eq!(plan.phase_hz, 1_967);
    assert_eq!(plan.next_frame_sample_count, 6_648);
}

#[test]
fn parse_sid_with_0x_prefix() {
    assert_eq!(parse_sid("0xF2F8"), Some(0xF2F8));
    assert_eq!(parse_sid("0xf2f8"), Some(0xF2F8));
    assert_eq!(parse_sid("0XF2F8"), Some(0xF2F8));
}

#[test]
fn parse_sid_without_prefix() {
    assert_eq!(parse_sid("F201"), Some(0xF201));
    assert_eq!(parse_sid("0001"), Some(0x0001));
}

#[test]
fn parse_sid_with_whitespace() {
    assert_eq!(parse_sid("  0xF2F8  "), Some(0xF2F8));
}

#[test]
fn parse_sid_rejects_what_is_not_a_16_bit_hex_number() {
    assert_eq!(parse_sid(""), None);
    assert_eq!(parse_sid("   "), None);
    assert_eq!(parse_sid("0x"), None);
    assert_eq!(parse_sid("+"), None);
    assert_eq!(parse_sid("0xG1"), None);
    assert_eq!(parse_sid("10000"), None);
    assert_eq!(parse_sid("-1"), None);
    assert_eq!(parse_sid("0x 12"), None);
}

#[test]
fn parse_sid_edge_values() {
    assert_eq!(parse_sid("+ff"), Some(0xFF));
    assert_eq!(parse_sid("0xFFFF"), Some(0xFFFF));
    assert_eq!(parse_sid("0000ffff"), Some(0xFFFF));
    assert_eq!(parse_sid("\t0x12\n"), Some(0x12));
    assert_eq!(parse_sid("\u{3000}ab\u{a0}"), Some(0xAB));
}

#[test]
fn sample_i_centres_raw_iq_bytes() {
    let iq = [0u8, 255, 128, 129];
    assert_eq!(sample_i(&iq, 0, 0), -128);
    assert_eq!(sample_i(&iq, 0, 1), 127);
    assert_eq!(sample_i(&iq, 1, 0), 0);
    assert_eq!(sample_i(&iq, 1, 1), 1);
}
